//! L2 order book: price levels kept sorted, best level first.
use crate::decimal::{
    abs_int, dadd, ddiv, dmul, dsub, dsum, dsum_ok, in_range, lemma_pow10_pos, max_mantissa, max_units,
    pow10, product_in_range, quotient_in_range, sum_in_range, two_dec, Dec,
};
use vstd::prelude::*;

verus! {

/// A price level: (price, quantity).
pub type Level = (Dec, Dec);

/// Whether price `a` comes before price `b` on a side of the book: higher
/// first for bids (`desc`), lower first for asks.
pub open spec fn ahead(desc: bool, a: Dec, b: Dec) -> bool {
    if desc {
        a@ > b@
    } else {
        a@ < b@
    }
}

/// The levels are in strict price order, best first.
pub open spec fn ladder_sorted(s: Seq<Level>, desc: bool) -> bool {
    forall|i: int, j: int| 0 <= i < j < s.len() ==> ahead(desc, #[trigger] s[i].0, #[trigger] s[j].0)
}

/// Some level has price value `k`.
pub open spec fn has_price(s: Seq<Level>, k: int) -> bool {
    exists|i: int| 0 <= i < s.len() && #[trigger] s[i].0@ == k
}

/// The levels as a map from price value to level.
pub open spec fn ladder_map(s: Seq<Level>) -> Map<int, Level> {
    Map::new(
        |k: int| has_price(s, k),
        |k: int| s[choose|i: int| 0 <= i < s.len() && #[trigger] s[i].0@ == k],
    )
}

/// The book side after one level update: a zero quantity removes the level,
/// an existing price keeps its key and takes the new quantity, a new price is
/// added.
pub open spec fn level_applied(m: Map<int, Level>, price: Dec, qty: Dec) -> Map<int, Level> {
    if qty@ == 0 {
        m.remove(price@)
    } else if m.contains_key(price@) {
        m.insert(price@, (m[price@].0, qty))
    } else {
        m.insert(price@, (price, qty))
    }
}

/// The book side after a sequence of level updates, applied in order.
pub open spec fn levels_applied(m: Map<int, Level>, ups: Seq<Level>) -> Map<int, Level>
    decreases ups.len(),
{
    if ups.len() == 0 {
        m
    } else {
        level_applied(levels_applied(m, ups.drop_last()), ups.last().0, ups.last().1)
    }
}

/// The book side after a snapshot's levels, applied in order, skipping zero
/// quantities.
pub open spec fn snapshot_applied(m: Map<int, Level>, ups: Seq<Level>) -> Map<int, Level>
    decreases ups.len(),
{
    if ups.len() == 0 {
        m
    } else {
        let prev = snapshot_applied(m, ups.drop_last());
        if ups.last().1@ == 0 {
            prev
        } else {
            level_applied(prev, ups.last().0, ups.last().1)
        }
    }
}

/// Whether `l` is the best level of the side `m`.
pub open spec fn is_best(m: Map<int, Level>, desc: bool, l: Level) -> bool {
    &&& m.contains_key(l.0@)
    &&& m[l.0@] == l
    &&& forall|k: int| #[trigger] m.contains_key(k) && k != l.0@ ==> if desc {
        k < l.0@
    } else {
        k > l.0@
    }
}

/// The quantities of the levels, in order.
pub open spec fn quantities(s: Seq<Level>) -> Seq<Dec> {
    s.map_values(|l: Level| l.1)
}

/// The total quantity of the first `n` levels (all of them if fewer).
pub open spec fn depth_of(s: Seq<Level>, n: nat) -> Dec {
    dsum(quantities(s).take(if n < s.len() { n as int } else { s.len() as int }))
}

/// Summing the first `n` quantities stays within range.
pub open spec fn depth_ok(s: Seq<Level>, n: nat) -> bool {
    dsum_ok(quantities(s).take(if n < s.len() { n as int } else { s.len() as int }))
}

pub(crate) proof fn lemma_map_at(s: Seq<Level>, desc: bool, i: int)
    requires
        ladder_sorted(s, desc),
        0 <= i < s.len(),
    ensures
        ladder_map(s).contains_key(s[i].0@),
        ladder_map(s)[s[i].0@] == s[i],
{
    let k = s[i].0@;
    assert(has_price(s, k));
    let j = choose|j: int| 0 <= j < s.len() && #[trigger] s[j].0@ == k;
    if j < i {
        assert(ahead(desc, s[j].0, s[i].0));
    } else if j > i {
        assert(ahead(desc, s[i].0, s[j].0));
    }
}

proof fn lemma_map_remove(s: Seq<Level>, desc: bool, pos: int)
    requires
        ladder_sorted(s, desc),
        0 <= pos < s.len(),
    ensures
        ladder_sorted(s.remove(pos), desc),
        ladder_map(s.remove(pos)) =~= ladder_map(s).remove(s[pos].0@),
{
    let t = s.remove(pos);
    assert forall|i: int, j: int| 0 <= i < j < t.len() implies ahead(desc, #[trigger] t[i].0, #[trigger] t[j].0) by {
        let si = if i < pos { i } else { i + 1 };
        let sj = if j < pos { j } else { j + 1 };
        assert(t[i] == s[si]);
        assert(t[j] == s[sj]);
        assert(ahead(desc, s[si].0, s[sj].0));
    }
    let m = ladder_map(s).remove(s[pos].0@);
    assert forall|k: int| ladder_map(t).contains_key(k) <==> m.contains_key(k) by {
        if ladder_map(t).contains_key(k) {
            let i = choose|i: int| 0 <= i < t.len() && #[trigger] t[i].0@ == k;
            let si = if i < pos { i } else { i + 1 };
            assert(t[i] == s[si]);
            lemma_map_at(s, desc, si);
            if si < pos {
                assert(ahead(desc, s[si].0, s[pos].0));
            } else {
                assert(ahead(desc, s[pos].0, s[si].0));
            }
        }
        if m.contains_key(k) {
            let i = choose|i: int| 0 <= i < s.len() && #[trigger] s[i].0@ == k;
            assert(i != pos);
            let ti = if i < pos { i } else { i - 1 };
            assert(t[ti] == s[i]);
            assert(has_price(t, k));
        }
    }
    assert forall|k: int| #[trigger] ladder_map(t).contains_key(k) implies ladder_map(t)[k] == m[k] by {
        let i = choose|i: int| 0 <= i < t.len() && #[trigger] t[i].0@ == k;
        lemma_map_at(t, desc, i);
        let si = if i < pos { i } else { i + 1 };
        assert(t[i] == s[si]);
        lemma_map_at(s, desc, si);
    }
}

pub(crate) proof fn lemma_map_set(s: Seq<Level>, desc: bool, pos: int, q: Dec)
    requires
        ladder_sorted(s, desc),
        0 <= pos < s.len(),
    ensures
        ladder_sorted(s.update(pos, (s[pos].0, q)), desc),
        ladder_map(s.update(pos, (s[pos].0, q))) =~= ladder_map(s).insert(s[pos].0@, (s[pos].0, q)),
{
    let t = s.update(pos, (s[pos].0, q));
    assert forall|i: int, j: int| 0 <= i < j < t.len() implies ahead(desc, #[trigger] t[i].0, #[trigger] t[j].0) by {
        assert(t[i].0 == s[i].0);
        assert(t[j].0 == s[j].0);
    }
    let m = ladder_map(s).insert(s[pos].0@, (s[pos].0, q));
    lemma_map_at(s, desc, pos);
    assert forall|k: int| ladder_map(t).contains_key(k) <==> m.contains_key(k) by {
        if ladder_map(t).contains_key(k) {
            let i = choose|i: int| 0 <= i < t.len() && #[trigger] t[i].0@ == k;
            assert(t[i].0 == s[i].0);
            assert(has_price(s, k));
        }
        if m.contains_key(k) {
            if k == s[pos].0@ {
                assert(t[pos].0@ == k);
            } else {
                let i = choose|i: int| 0 <= i < s.len() && #[trigger] s[i].0@ == k;
                assert(t[i].0 == s[i].0);
            }
            assert(has_price(t, k));
        }
    }
    assert forall|k: int| #[trigger] ladder_map(t).contains_key(k) implies ladder_map(t)[k] == m[k] by {
        let i = choose|i: int| 0 <= i < t.len() && #[trigger] t[i].0@ == k;
        lemma_map_at(t, desc, i);
        if i != pos {
            assert(t[i] == s[i]);
            lemma_map_at(s, desc, i);
            assert(ahead(desc, s[i].0, s[pos].0) || ahead(desc, s[pos].0, s[i].0));
        }
    }
}

pub(crate) proof fn lemma_map_insert(s: Seq<Level>, desc: bool, pos: int, l: Level)
    requires
        ladder_sorted(s, desc),
        0 <= pos <= s.len(),
        forall|j: int| 0 <= j < pos ==> ahead(desc, #[trigger] s[j].0, l.0),
        forall|j: int| pos <= j < s.len() ==> ahead(desc, l.0, #[trigger] s[j].0),
    ensures
        ladder_sorted(s.insert(pos, l), desc),
        ladder_map(s.insert(pos, l)) =~= ladder_map(s).insert(l.0@, l),
{
    let t = s.insert(pos, l);
    assert forall|i: int, j: int| 0 <= i < j < t.len() implies ahead(desc, #[trigger] t[i].0, #[trigger] t[j].0) by {
        if i < pos && j < pos {
            assert(t[i] == s[i] && t[j] == s[j]);
        } else if i < pos && j == pos {
            assert(t[i] == s[i]);
        } else if i < pos {
            assert(t[i] == s[i] && t[j] == s[j - 1]);
        } else if i == pos {
            assert(t[j] == s[j - 1]);
        } else {
            assert(t[i] == s[i - 1] && t[j] == s[j - 1]);
        }
    }
    let m = ladder_map(s).insert(l.0@, l);
    assert forall|k: int| ladder_map(t).contains_key(k) <==> m.contains_key(k) by {
        if ladder_map(t).contains_key(k) {
            let i = choose|i: int| 0 <= i < t.len() && #[trigger] t[i].0@ == k;
            if i < pos {
                assert(t[i] == s[i]);
                assert(has_price(s, k));
            } else if i > pos {
                assert(t[i] == s[i - 1]);
                assert(has_price(s, k));
            }
        }
        if m.contains_key(k) {
            if k == l.0@ {
                assert(t[pos] == l);
            } else {
                let i = choose|i: int| 0 <= i < s.len() && #[trigger] s[i].0@ == k;
                if i < pos {
                    assert(t[i] == s[i]);
                } else {
                    assert(t[i + 1] == s[i]);
                }
            }
            assert(has_price(t, k));
        }
    }
    assert forall|k: int| #[trigger] ladder_map(t).contains_key(k) implies ladder_map(t)[k] == m[k] by {
        let i = choose|i: int| 0 <= i < t.len() && #[trigger] t[i].0@ == k;
        lemma_map_at(t, desc, i);
        if i < pos {
            assert(t[i] == s[i]);
            lemma_map_at(s, desc, i);
        } else if i > pos {
            assert(t[i] == s[i - 1]);
            lemma_map_at(s, desc, i - 1);
        }
    }
}

pub(crate) proof fn lemma_absent(s: Seq<Level>, desc: bool, pos: int, p: Dec)
    requires
        ladder_sorted(s, desc),
        0 <= pos <= s.len(),
        forall|j: int| 0 <= j < pos ==> ahead(desc, #[trigger] s[j].0, p),
        pos < s.len() ==> ahead(desc, p, s[pos].0),
    ensures
        !ladder_map(s).contains_key(p@),
        forall|j: int| pos <= j < s.len() ==> ahead(desc, p, #[trigger] s[j].0),
{
    assert forall|j: int| pos <= j < s.len() implies ahead(desc, p, #[trigger] s[j].0) by {
        if j > pos {
            assert(ahead(desc, s[pos].0, s[j].0));
        }
    }
    if has_price(s, p@) {
        let i = choose|i: int| 0 <= i < s.len() && #[trigger] s[i].0@ == p@;
        if i < pos {
            assert(ahead(desc, s[i].0, p));
        } else {
            assert(ahead(desc, p, s[i].0));
        }
    }
}

/// Whether price `a` comes before `b` on the side given by `desc`.
pub(crate) fn ahead_exec(desc: bool, a: &Dec, b: &Dec) -> (r: bool)
    ensures
        r == ahead(desc, *a, *b),
{
    if desc {
        b.lt(a)
    } else {
        a.lt(b)
    }
}

/// Apply one level update to a sorted side of the book.
fn apply_level(ladder: &mut Vec<Level>, desc: bool, price: Dec, qty: Dec)
    requires
        ladder_sorted(old(ladder)@, desc),
    ensures
        ladder_sorted(final(ladder)@, desc),
        ladder_map(final(ladder)@) == level_applied(ladder_map(old(ladder)@), price, qty),
{
    let ghost s = ladder@;
    let mut pos: usize = 0;
    while pos < ladder.len() && ahead_exec(desc, &ladder[pos].0, &price)
        invariant
            ladder@ == s,
            pos <= s.len(),
            forall|j: int| 0 <= j < pos ==> ahead(desc, #[trigger] s[j].0, price),
        decreases s.len() - pos,
    {
        pos = pos + 1;
    }
    let zero_qty = qty.is_zero();
    if pos < ladder.len() && ladder[pos].0.eq_value(&price) {
        proof {
            lemma_map_at(s, desc, pos as int);
        }
        if zero_qty {
            ladder.remove(pos);
            proof {
                lemma_map_remove(s, desc, pos as int);
            }
        } else {
            let p0 = ladder[pos].0;
            ladder.set(pos, (p0, qty));
            proof {
                lemma_map_set(s, desc, pos as int, qty);
            }
        }
    } else {
        proof {
            if pos < s.len() {
                assert(!ahead(desc, s[pos as int].0, price));
                assert(s[pos as int].0@ != price@);
            }
            lemma_absent(s, desc, pos as int, price);
        }
        if !zero_qty {
            ladder.insert(pos, (price, qty));
            proof {
                lemma_map_insert(s, desc, pos as int, (price, qty));
            }
        } else {
            assert(ladder_map(s).remove(price@) =~= ladder_map(s));
        }
    }
}

proof fn lemma_dsum_ok_prefix_step(s: Seq<Dec>, k: int, i: int)
    requires
        dsum_ok(s.take(k)),
        0 <= i <= k <= s.len(),
    ensures
        dsum_ok(s.take(i)),
    decreases k - i,
{
    if i < k {
        assert(s.take(k).drop_last() =~= s.take(k - 1));
        lemma_dsum_ok_prefix_step(s, k - 1, i);
    }
}

/// The total quantity of the first `levels` levels of a side.
/// The total quantity of a ladder when every running sum stays within
/// range, `None` otherwise.
pub(crate) fn checked_side_total(ladder: &Vec<Level>) -> (r: Option<Dec>)
    ensures
        r is Some <==> dsum_ok(quantities(ladder@)),
        r matches Some(t) ==> t == dsum(quantities(ladder@)),
{
    let ghost q = quantities(ladder@);
    let mut acc = Dec::zero();
    let mut i: usize = 0;
    assert(q.take(0) =~= Seq::<Dec>::empty());
    while i < ladder.len()
        invariant
            q == quantities(ladder@),
            i <= ladder@.len(),
            dsum_ok(q.take(i as int)),
            acc == dsum(q.take(i as int)),
        decreases ladder@.len() - i,
    {
        proof {
            assert(q.take(i + 1).drop_last() =~= q.take(i as int));
            assert(q.take(i + 1).last() == ladder@[i as int].1);
        }
        let qty = ladder[i].1;
        if !sum_in_range(&acc, &qty) {
            proof {
                assert(!dsum_ok(q.take(i + 1)));
                if dsum_ok(q) {
                    assert(q.take(q.len() as int) =~= q);
                    lemma_dsum_ok_prefix_step(q, q.len() as int, i + 1);
                }
            }
            return None;
        }
        acc = acc.plus(&qty);
        i = i + 1;
    }
    assert(q.take(q.len() as int) =~= q);
    Some(acc)
}

pub(crate) fn side_depth(ladder: &Vec<Level>, levels: usize) -> (r: Dec)
    requires
        depth_ok(ladder@, levels as nat),
    ensures
        r == depth_of(ladder@, levels as nat),
{
    let n = if levels < ladder.len() {
        levels
    } else {
        ladder.len()
    };
    let ghost q = quantities(ladder@);
    let mut total = Dec::zero();
    let mut i: usize = 0;
    assert(q.take(0) =~= Seq::<Dec>::empty());
    while i < n
        invariant
            n <= ladder@.len(),
            q == quantities(ladder@),
            dsum_ok(q.take(n as int)),
            i <= n,
            total == dsum(q.take(i as int)),
        decreases n - i,
    {
        proof {
            lemma_dsum_ok_prefix_step(q, n as int, i + 1);
            assert(q.take(i + 1).drop_last() =~= q.take(i as int));
            assert(q.take(i + 1).last() == ladder@[i as int].1);
        }
        total = total.plus(&ladder[i].1);
        i = i + 1;
    }
    total
}

/// L2 order book with sorted bid and ask levels.
///
/// Bids are kept highest price first and asks lowest price first, so the best
/// level of each side is its first one.
#[derive(Debug, Clone)]
pub struct OrderBook {
    bids: Vec<Level>,
    asks: Vec<Level>,
    last_update_id: u64,
    timestamp_ms: u64,
}

impl OrderBook {
    /// Both sides are in strict price order, best first.
    pub closed spec fn wf(&self) -> bool {
        &&& ladder_sorted(self.bids@, true)
        &&& ladder_sorted(self.asks@, false)
    }

    /// The bid levels, highest price first.
    pub closed spec fn bid_levels(&self) -> Seq<Level> {
        self.bids@
    }

    /// The ask levels, lowest price first.
    pub closed spec fn ask_levels(&self) -> Seq<Level> {
        self.asks@
    }

    /// The bids by price value.
    pub open spec fn bid_map(&self) -> Map<int, Level> {
        ladder_map(self.bid_levels())
    }

    /// The asks by price value.
    pub open spec fn ask_map(&self) -> Map<int, Level> {
        ladder_map(self.ask_levels())
    }

    pub fn new() -> (r: Self)
        ensures
            r.wf(),
            r.bid_levels() == Seq::<Level>::empty(),
            r.ask_levels() == Seq::<Level>::empty(),
    {
        OrderBook { bids: Vec::new(), asks: Vec::new(), last_update_id: 0, timestamp_ms: 0 }
    }

    /// Apply incremental updates, in order. A quantity of zero removes the level.
    pub fn apply_update(&mut self, bids: &[Level], asks: &[Level])
        requires
            old(self).wf(),
        ensures
            final(self).wf(),
            final(self).bid_map() == levels_applied(old(self).bid_map(), bids@),
            final(self).ask_map() == levels_applied(old(self).ask_map(), asks@),
    {
        let mut i: usize = 0;
        while i < bids.len()
            invariant
                self.wf(),
                i <= bids@.len(),
                self.bid_map() == levels_applied(old(self).bid_map(), bids@.take(i as int)),
                self.ask_map() == old(self).ask_map(),
                self.last_update_id == old(self).last_update_id,
                self.timestamp_ms == old(self).timestamp_ms,
            decreases bids@.len() - i,
        {
            let (p, q) = bids[i];
            apply_level(&mut self.bids, true, p, q);
            assert(bids@.take(i + 1).drop_last() =~= bids@.take(i as int));
            i = i + 1;
        }
        assert(bids@.take(bids@.len() as int) =~= bids@);
        let mut j: usize = 0;
        while j < asks.len()
            invariant
                self.wf(),
                j <= asks@.len(),
                self.bid_map() == levels_applied(old(self).bid_map(), bids@),
                self.ask_map() == levels_applied(old(self).ask_map(), asks@.take(j as int)),
                self.last_update_id == old(self).last_update_id,
                self.timestamp_ms == old(self).timestamp_ms,
            decreases asks@.len() - j,
        {
            let (p, q) = asks[j];
            apply_level(&mut self.asks, false, p, q);
            assert(asks@.take(j + 1).drop_last() =~= asks@.take(j as int));
            j = j + 1;
        }
        assert(asks@.take(asks@.len() as int) =~= asks@);
    }

    /// Replace both sides with a snapshot, skipping zero quantities.
    pub fn apply_snapshot(&mut self, bids: &[Level], asks: &[Level])
        requires
            old(self).wf(),
        ensures
            final(self).wf(),
            final(self).bid_map() == snapshot_applied(Map::empty(), bids@),
            final(self).ask_map() == snapshot_applied(Map::empty(), asks@),
    {
        self.bids.clear();
        self.asks.clear();
        assert(ladder_map(self.bids@) =~= Map::<int, Level>::empty());
        assert(ladder_map(self.asks@) =~= Map::<int, Level>::empty());
        let mut i: usize = 0;
        while i < bids.len()
            invariant
                self.wf(),
                i <= bids@.len(),
                self.bid_map() == snapshot_applied(Map::empty(), bids@.take(i as int)),
                self.ask_map() == Map::<int, Level>::empty(),
                self.last_update_id == old(self).last_update_id,
                self.timestamp_ms == old(self).timestamp_ms,
            decreases bids@.len() - i,
        {
            let (p, q) = bids[i];
            if !q.is_zero() {
                apply_level(&mut self.bids, true, p, q);
            }
            assert(bids@.take(i + 1).drop_last() =~= bids@.take(i as int));
            i = i + 1;
        }
        assert(bids@.take(bids@.len() as int) =~= bids@);
        let mut j: usize = 0;
        while j < asks.len()
            invariant
                self.wf(),
                j <= asks@.len(),
                self.bid_map() == snapshot_applied(Map::empty(), bids@),
                self.ask_map() == snapshot_applied(Map::empty(), asks@.take(j as int)),
                self.last_update_id == old(self).last_update_id,
                self.timestamp_ms == old(self).timestamp_ms,
            decreases asks@.len() - j,
        {
            let (p, q) = asks[j];
            if !q.is_zero() {
                apply_level(&mut self.asks, false, p, q);
            }
            assert(asks@.take(j + 1).drop_last() =~= asks@.take(j as int));
            j = j + 1;
        }
        assert(asks@.take(asks@.len() as int) =~= asks@);
    }

    /// Best bid price and quantity.
    pub fn best_bid(&self) -> (r: Option<Level>)
        requires
            self.wf(),
        ensures
            match r {
                None => self.bid_map().is_empty(),
                Some(l) => is_best(self.bid_map(), true, l) && l == self.bid_levels()[0],
            },
    {
        if self.bids.len() == 0 {
            assert(self.bid_map() =~= Map::<int, Level>::empty());
            None
        } else {
            proof {
                self.lemma_first_is_best(true);
            }
            Some(self.bids[0])
        }
    }

    /// Best ask price and quantity.
    pub fn best_ask(&self) -> (r: Option<Level>)
        requires
            self.wf(),
        ensures
            match r {
                None => self.ask_map().is_empty(),
                Some(l) => is_best(self.ask_map(), false, l) && l == self.ask_levels()[0],
            },
    {
        if self.asks.len() == 0 {
            assert(self.ask_map() =~= Map::<int, Level>::empty());
            None
        } else {
            proof {
                self.lemma_first_is_best(false);
            }
            Some(self.asks[0])
        }
    }

    proof fn lemma_first_is_best(&self, desc: bool)
        requires
            self.wf(),
            desc ==> self.bids@.len() > 0,
            !desc ==> self.asks@.len() > 0,
        ensures
            desc ==> is_best(ladder_map(self.bids@), true, self.bids@[0]),
            !desc ==> is_best(ladder_map(self.asks@), false, self.asks@[0]),
    {
        let s = if desc {
            self.bids@
        } else {
            self.asks@
        };
        lemma_map_at(s, desc, 0);
        assert forall|k: int| #[trigger] ladder_map(s).contains_key(k) && k != s[0].0@ implies (if desc {
            k < s[0].0@
        } else {
            k > s[0].0@
        }) by {
            let i = choose|i: int| 0 <= i < s.len() && #[trigger] s[i].0@ == k;
            assert(i != 0);
            assert(ahead(desc, s[0].0, s[i].0));
        }
    }

    /// Whether both sides are non-empty and the best prices' difference is
    /// within the range of decimals.
    pub open spec fn spread_ok(&self) -> bool {
        self.bid_levels().len() > 0 && self.ask_levels().len() > 0 ==> in_range(
            self.ask_levels()[0].0@ - self.bid_levels()[0].0@,
        )
    }

    /// Spread: best ask price minus best bid price.
    pub fn spread(&self) -> (r: Option<Dec>)
        requires
            self.wf(),
            self.spread_ok(),
        ensures
            match r {
                None => self.bid_map().is_empty() || self.ask_map().is_empty(),
                Some(d) => self.bid_levels().len() > 0 && self.ask_levels().len() > 0 && d == dsub(
                    self.ask_levels()[0].0,
                    self.bid_levels()[0].0,
                ),
            },
    {
        match (self.best_bid(), self.best_ask()) {
            (Some((bid, _)), Some((ask, _))) => Some(ask.minus(&bid)),
            _ => None,
        }
    }

    /// Whether both sides are non-empty and the best prices' sum is within
    /// the range of decimals.
    pub open spec fn mid_ok(&self) -> bool {
        self.bid_levels().len() > 0 && self.ask_levels().len() > 0 ==> in_range(
            self.bid_levels()[0].0@ + self.ask_levels()[0].0@,
        )
    }

    /// Mid price: (best bid + best ask) / 2.
    pub fn mid_price(&self) -> (r: Option<Dec>)
        requires
            self.wf(),
            self.mid_ok(),
        ensures
            match r {
                None => self.bid_map().is_empty() || self.ask_map().is_empty(),
                Some(d) => self.bid_levels().len() > 0 && self.ask_levels().len() > 0 && d == ddiv(
                    dadd(self.bid_levels()[0].0, self.ask_levels()[0].0),
                    two_dec(),
                ),
            },
    {
        match (self.best_bid(), self.best_ask()) {
            (Some((bid, _)), Some((ask, _))) => {
                let sum = bid.plus(&ask);
                let two = Dec::two();
                sum.bounds();
                proof {
                    lemma_pow10_pos(28);
                }
                Some(sum.divided_by(&two))
            },
            _ => None,
        }
    }

    /// Whether the microprice of the best levels can be computed without
    /// leaving the range of decimals.
    pub open spec fn microprice_ok(&self) -> bool {
        self.bid_levels().len() > 0 && self.ask_levels().len() > 0 ==> {
            let (bp, bq) = self.bid_levels()[0];
            let (ap, aq) = self.ask_levels()[0];
            &&& in_range(bq@ + aq@)
            &&& abs_int(bp@ * aq@) <= max_units() * pow10(28)
            &&& abs_int(ap@ * bq@) <= max_units() * pow10(28)
            &&& in_range(dmul(bp, aq)@ + dmul(ap, bq)@)
            &&& dadd(bq, aq)@ != 0 ==> abs_int(dadd(dmul(bp, aq), dmul(ap, bq))@) < max_mantissa()
                * abs_int(dadd(bq, aq)@)
        }
    }

    /// Microprice when its arithmetic stays within the range of decimals:
    /// `Some` of what `microprice` gives, `None` when the range would be left.
    pub fn checked_microprice(&self) -> (r: Option<Option<Dec>>)
        requires
            self.wf(),
        ensures
            r is Some <==> self.microprice_ok(),
            r matches Some(m) ==> match m {
                None => self.bid_map().is_empty() || self.ask_map().is_empty() || dadd(
                    self.bid_levels()[0].1,
                    self.ask_levels()[0].1,
                )@ == 0,
                Some(d) => self.bid_levels().len() > 0 && self.ask_levels().len() > 0 && {
                    let (bp, bq) = self.bid_levels()[0];
                    let (ap, aq) = self.ask_levels()[0];
                    d == ddiv(dadd(dmul(bp, aq), dmul(ap, bq)), dadd(bq, aq))
                },
            },
    {
        if self.bids.len() > 0 && self.asks.len() > 0 {
            let (bp, bq) = self.bids[0];
            let (ap, aq) = self.asks[0];
            if !sum_in_range(&bq, &aq) || !product_in_range(&bp, &aq) || !product_in_range(&ap, &bq) {
                return None;
            }
            let n1 = bp.times(&aq);
            let n2 = ap.times(&bq);
            if !sum_in_range(&n1, &n2) {
                return None;
            }
            let den = bq.plus(&aq);
            if !den.is_zero() {
                let num = n1.plus(&n2);
                if !quotient_in_range(&num, &den) {
                    return None;
                }
            }
        }
        Some(self.microprice())
    }

    /// Microprice: (bid price * ask qty + ask price * bid qty) / (bid qty + ask qty),
    /// or `None` when a side is empty or the quantities add up to zero.
    pub fn microprice(&self) -> (r: Option<Dec>)
        requires
            self.wf(),
            self.microprice_ok(),
        ensures
            match r {
                None => self.bid_map().is_empty() || self.ask_map().is_empty() || dadd(
                    self.bid_levels()[0].1,
                    self.ask_levels()[0].1,
                )@ == 0,
                Some(d) => self.bid_levels().len() > 0 && self.ask_levels().len() > 0 && {
                    let (bp, bq) = self.bid_levels()[0];
                    let (ap, aq) = self.ask_levels()[0];
                    d == ddiv(dadd(dmul(bp, aq), dmul(ap, bq)), dadd(bq, aq))
                },
            },
    {
        match (self.best_bid(), self.best_ask()) {
            (Some((bid_p, bid_q)), Some((ask_p, ask_q))) => {
                let denom = bid_q.plus(&ask_q);
                if denom.is_zero() {
                    return None;
                }
                let num = bid_p.times(&ask_q).plus(&ask_p.times(&bid_q));
                Some(num.divided_by(&denom))
            },
            _ => None,
        }
    }

    /// Total bid quantity of the best `levels` levels.
    pub fn bid_depth(&self, levels: usize) -> (r: Dec)
        requires
            depth_ok(self.bid_levels(), levels as nat),
        ensures
            r == depth_of(self.bid_levels(), levels as nat),
    {
        side_depth(&self.bids, levels)
    }

    /// Total ask quantity of the best `levels` levels.
    pub fn ask_depth(&self, levels: usize) -> (r: Dec)
        requires
            depth_ok(self.ask_levels(), levels as nat),
        ensures
            r == depth_of(self.ask_levels(), levels as nat),
    {
        side_depth(&self.asks, levels)
    }

    /// The depth difference and the total depth of the best `depth` levels
    /// of each side, `(bid - ask, bid + ask)`, or `None` when the total is
    /// zero. Their ratio is the order book imbalance, from -1 (all asks) to
    /// +1 (all bids).
    pub fn depth_imbalance(&self, depth: usize) -> (r: Option<(Dec, Dec)>)
        requires
            imbalance_ok(self.bid_levels(), self.ask_levels(), depth as nat),
        ensures
            r == imbalance_of(self.bid_levels(), self.ask_levels(), depth as nat),
    {
        let bid_vol = self.bid_depth(depth);
        let ask_vol = self.ask_depth(depth);
        let total = bid_vol.plus(&ask_vol);
        if total.is_zero() {
            return None;
        }
        let diff = bid_vol.minus(&ask_vol);
        Some((diff, total))
    }
}

/// The depth difference and total of the best `n` levels of each side, or
/// `None` when the total is zero.
pub open spec fn imbalance_of(bids: Seq<Level>, asks: Seq<Level>, n: nat) -> Option<(Dec, Dec)> {
    let total = dadd(depth_of(bids, n), depth_of(asks, n));
    if total@ == 0 {
        None
    } else {
        Some((dsub(depth_of(bids, n), depth_of(asks, n)), total))
    }
}

/// The sums behind the imbalance stay within the range of decimals.
pub open spec fn imbalance_ok(bids: Seq<Level>, asks: Seq<Level>, n: nat) -> bool {
    &&& depth_ok(bids, n)
    &&& depth_ok(asks, n)
    &&& in_range(depth_of(bids, n)@ + depth_of(asks, n)@)
    &&& dadd(depth_of(bids, n), depth_of(asks, n))@ != 0 ==> in_range(
        depth_of(bids, n)@ - depth_of(asks, n)@,
    )
}

impl Default for OrderBook {
    fn default() -> (r: Self)
        ensures
            r.wf(),
            r.bid_levels() == Seq::<Level>::empty(),
            r.ask_levels() == Seq::<Level>::empty(),
    {
        Self::new()
    }
}

/// Reading a level back after an update gives what the update wrote: a
/// zero quantity removes the price, any other quantity is stored at it, and
/// no other price changes.
pub proof fn lemma_update_reads_back(m: Map<int, Level>, price: Dec, qty: Dec, other: int)
    requires
        other != price@,
    ensures
        qty@ == 0 ==> !level_applied(m, price, qty).contains_key(price@),
        qty@ != 0 ==> level_applied(m, price, qty).contains_key(price@) && level_applied(
            m,
            price,
            qty,
        )[price@].1 == qty,
        level_applied(m, price, qty).contains_key(other) == m.contains_key(other),
        m.contains_key(other) ==> level_applied(m, price, qty)[other] == m[other],
{
}

} // verus!

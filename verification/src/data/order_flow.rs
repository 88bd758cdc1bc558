//! Volume profile: traded volume per price level, and the level where the
//! most volume traded (the point of control).
use crate::data::orderbook::{
    ahead, ahead_exec, ladder_map, ladder_sorted, lemma_absent, lemma_map_at, lemma_map_insert,
    lemma_map_set, Level,
};
use crate::decimal::{dadd, in_range, zero_dec, Dec};
use vstd::prelude::*;

verus! {

/// The profile after a trade of `qty` at `price`: the volume of the level
/// with that price value grows by `qty` (a new level starts from zero).
pub open spec fn volume_added(m: Map<int, Level>, price: Dec, qty: Dec) -> Map<int, Level> {
    if m.contains_key(price@) {
        m.insert(price@, (m[price@].0, dadd(m[price@].1, qty)))
    } else {
        m.insert(price@, (price, dadd(zero_dec(), qty)))
    }
}

/// Level `j` is the point of control of `s`: no level has more volume, and
/// every later level has less (the last of equal maxima wins).
pub open spec fn is_poc(s: Seq<Level>, j: int) -> bool {
    &&& 0 <= j < s.len()
    &&& forall|i: int| 0 <= i < s.len() ==> (#[trigger] s[i]).1@ <= s[j].1@
    &&& forall|i: int| j < i < s.len() ==> (#[trigger] s[i]).1@ < s[j].1@
}

/// Traded volume at each price level.
#[derive(Debug, Clone)]
pub struct VolumeProfile {
    /// Levels in ascending price order, each price value once.
    levels: Vec<Level>,
    total_volume: Dec,
}

impl VolumeProfile {
    pub closed spec fn wf(&self) -> bool {
        ladder_sorted(self.levels@, false)
    }

    /// The levels, lowest price first.
    pub closed spec fn ladder(&self) -> Seq<Level> {
        self.levels@
    }

    /// The volume per price value.
    pub open spec fn profile(&self) -> Map<int, Level> {
        ladder_map(self.ladder())
    }

    /// The total traded volume.
    pub closed spec fn total(&self) -> Dec {
        self.total_volume
    }

    /// An empty profile.
    pub fn new() -> (r: Self)
        ensures
            r.wf(),
            r.ladder() == Seq::<Level>::empty(),
            r.total() == zero_dec(),
    {
        VolumeProfile { levels: Vec::new(), total_volume: Dec::zero() }
    }

    /// Records a trade of `quantity` at `price`.
    pub fn on_trade(&mut self, price: Dec, quantity: Dec)
        requires
            old(self).wf(),
            old(self).profile().contains_key(price@) ==> in_range(
                old(self).profile()[price@].1@ + quantity@,
            ),
            in_range(old(self).total()@ + quantity@),
        ensures
            final(self).wf(),
            final(self).profile() == volume_added(old(self).profile(), price, quantity),
            final(self).total() == dadd(old(self).total(), quantity),
    {
        let ghost s = self.levels@;
        let mut pos: usize = 0;
        while pos < self.levels.len() && ahead_exec(false, &self.levels[pos].0, &price)
            invariant
                self.levels@ == s,
                pos <= s.len(),
                forall|j: int| 0 <= j < pos ==> ahead(false, #[trigger] s[j].0, price),
            decreases s.len() - pos,
        {
            pos = pos + 1;
        }
        if pos < self.levels.len() && self.levels[pos].0.eq_value(&price) {
            proof {
                lemma_map_at(s, false, pos as int);
            }
            let (p0, v0) = self.levels[pos];
            let v = v0.plus(&quantity);
            self.levels.set(pos, (p0, v));
            proof {
                lemma_map_set(s, false, pos as int, v);
            }
        } else {
            proof {
                if pos < s.len() {
                    assert(!ahead(false, s[pos as int].0, price));
                    assert(s[pos as int].0@ != price@);
                }
                lemma_absent(s, false, pos as int, price);
            }
            let zero = Dec::zero();
            proof {
                crate::decimal::lemma_zero_dec_view();
            }
            quantity.bounds();
            let v = zero.plus(&quantity);
            self.levels.insert(pos, (price, v));
            proof {
                lemma_map_insert(s, false, pos as int, (price, v));
            }
        }
        self.total_volume = self.total_volume.plus(&quantity);
    }

    /// The point of control: the price of the level with the most volume (the
    /// highest such price on a tie), or `None` when nothing has traded.
    pub fn poc(&self) -> (r: Option<Dec>)
        ensures
            match r {
                None => self.ladder().len() == 0,
                Some(p) => exists|j: int| #[trigger] is_poc(self.ladder(), j) && self.ladder()[j].0 == p,
            },
    {
        let n = self.levels.len();
        if n == 0 {
            return None;
        }
        let mut best: usize = 0;
        let mut i: usize = 1;
        while i < n
            invariant
                n == self.levels@.len(),
                1 <= i <= n,
                best < i,
                forall|k: int| 0 <= k < i ==> (#[trigger] self.levels@[k]).1@ <= self.levels@[best as int].1@,
                forall|k: int| best < k < i ==> (#[trigger] self.levels@[k]).1@ < self.levels@[best as int].1@,
            decreases n - i,
        {
            if self.levels[best].1.le(&self.levels[i].1) {
                best = i;
            }
            i = i + 1;
        }
        assert(is_poc(self.ladder(), best as int));
        Some(self.levels[best].0)
    }

    /// The levels, lowest price first (price, volume).
    pub fn levels(&self) -> (r: Vec<Level>)
        ensures
            r@ == self.ladder(),
    {
        let mut out: Vec<Level> = Vec::new();
        let mut i: usize = 0;
        while i < self.levels.len()
            invariant
                i <= self.levels@.len(),
                out@ == self.levels@.take(i as int),
            decreases self.levels@.len() - i,
        {
            out.push(self.levels[i]);
            i = i + 1;
            assert(out@ =~= self.levels@.take(i as int));
        }
        assert(out@ =~= self.levels@);
        out
    }

    /// Clears the profile (e.g. at a session boundary).
    pub fn reset(&mut self)
        ensures
            final(self).wf(),
            final(self).ladder() == Seq::<Level>::empty(),
            final(self).total() == zero_dec(),
    {
        self.levels = Vec::new();
        self.total_volume = Dec::zero();
    }

    /// The total traded volume.
    pub fn total_volume(&self) -> (r: Dec)
        ensures
            r == self.total(),
    {
        self.total_volume
    }
}

impl Default for VolumeProfile {
    fn default() -> (r: Self)
        ensures
            r.wf(),
            r.ladder() == Seq::<Level>::empty(),
            r.total() == zero_dec(),
    {
        Self::new()
    }
}

} // verus!

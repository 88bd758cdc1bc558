//! The decisions of a historical candle download: which time windows to ask
//! for, when the walk through time stops, whether a cache still covers
//! enough of the requested days, and how fetched candles are put in order.
use vstd::prelude::*;

verus! {

/// The most pages a download walks through; the walk stops after a page
/// that brings the count above it.
pub const PAGE_CAP: u64 = 500;

/// The least cache coverage, in percent, that is used without refetching.
pub const MIN_CACHE_COVERAGE: usize = 70;

/// A pager's position, as plain data.
pub struct PagerState {
    pub start: i64,
    pub cursor: i64,
    pub end: i64,
    pub chunk: i64,
    pub step: i64,
    pub pages: u64,
    pub stopped: bool,
}

/// The smaller of two integers.
pub open spec fn min_int(a: int, b: int) -> int {
    if a <= b {
        a
    } else {
        b
    }
}

/// The larger of two integers.
pub open spec fn max_int(a: int, b: int) -> int {
    if a >= b {
        a
    } else {
        b
    }
}

/// The window to fetch next: from the cursor, at most one chunk long and
/// never past the end; none once the walk has stopped or reached the end.
pub open spec fn window_of(s: PagerState) -> Option<(i64, i64)> {
    if s.stopped || s.cursor >= s.end {
        None
    } else {
        Some((s.cursor, min_int(s.cursor + s.chunk, s.end as int) as i64))
    }
}

/// The position after a page. An empty page moves the cursor just past the
/// window. A page whose last item starts at `t` moves it to one step past
/// `t`, but at least just past the window; the walk stops if that would not
/// move forward, or when the page count passes the cap.
pub open spec fn after_page(s: PagerState, last: Option<i64>) -> PagerState {
    let to = window_of(s).unwrap().1;
    match last {
        None => PagerState { cursor: (to + 1) as i64, pages: (s.pages + 1) as u64, ..s },
        Some(t) => {
            let next = max_int(t + s.step, to + 1);
            if next <= s.cursor {
                PagerState { stopped: true, ..s }
            } else {
                PagerState {
                    cursor: next as i64,
                    pages: (s.pages + 1) as u64,
                    stopped: s.pages + 1 > PAGE_CAP,
                    ..s
                }
            }
        },
    }
}

/// The bounds that keep a pager's arithmetic in range: a positive chunk and
/// step, an end that a chunk past it still fits, a cursor that only moved
/// forward from the start, and a page count no larger than that movement.
pub open spec fn pager_wf(s: PagerState) -> bool {
    &&& s.chunk > 0
    &&& s.step > 0
    &&& s.end + s.chunk < i64::MAX
    &&& s.start <= s.cursor
    &&& s.pages <= s.cursor - s.start
}

/// A walk forward through time, one window of at most `chunk` at a time,
/// from `start` up to `end`.
pub struct Pager {
    start: i64,
    cursor: i64,
    end: i64,
    chunk: i64,
    step: i64,
    pages: u64,
    stopped: bool,
}

impl Pager {
    pub closed spec fn state(&self) -> PagerState {
        PagerState {
            start: self.start,
            cursor: self.cursor,
            end: self.end,
            chunk: self.chunk,
            step: self.step,
            pages: self.pages,
            stopped: self.stopped,
        }
    }

    /// The pager of a Binance kline download of `days` days up to `now_ms`
    /// (ms), for candles of `res_s` seconds: windows of 1400 candles, and
    /// the cursor moves one candle past the last one received.
    pub fn binance(now_ms: i64, days: u32, res_s: i64) -> (r: Pager)
        requires
            0 < res_s <= 86_400,
            now_ms - days * 86_400_000 >= i64::MIN,
            now_ms + 1400 * res_s * 1000 < i64::MAX,
        ensures
            pager_wf(r.state()),
            r.state() == (PagerState {
                start: (now_ms - days * 86_400_000) as i64,
                cursor: (now_ms - days * 86_400_000) as i64,
                end: now_ms,
                chunk: (1400 * res_s * 1000) as i64,
                step: (res_s * 1000) as i64,
                pages: 0,
                stopped: false,
            }),
    {
        let back: i64 = days as i64 * 86_400_000;
        let start = now_ms - back;
        Pager {
            start,
            cursor: start,
            end: now_ms,
            chunk: 1400 * res_s * 1000,
            step: res_s * 1000,
            pages: 0,
            stopped: false,
        }
    }

    /// The pager of a Kraken chart download of `days` days up to `now_s`
    /// (seconds), for candles of `res_s` seconds: windows of 1900 candles,
    /// and the cursor moves one candle past the last one received.
    pub fn kraken(now_s: i64, days: u32, res_s: i64) -> (r: Pager)
        requires
            0 < res_s <= 86_400,
            now_s - days * 86_400 >= i64::MIN,
            now_s + 1900 * res_s < i64::MAX,
        ensures
            pager_wf(r.state()),
            r.state() == (PagerState {
                start: (now_s - days * 86_400) as i64,
                cursor: (now_s - days * 86_400) as i64,
                end: now_s,
                chunk: (1900 * res_s) as i64,
                step: res_s,
                pages: 0,
                stopped: false,
            }),
    {
        let back: i64 = days as i64 * 86_400;
        let start = now_s - back;
        Pager { start, cursor: start, end: now_s, chunk: 1900 * res_s, step: res_s, pages: 0, stopped: false }
    }

    /// The next window to fetch, as (from, to), or `None` when the walk is
    /// over.
    pub fn window(&self) -> (r: Option<(i64, i64)>)
        requires
            pager_wf(self.state()),
        ensures
            r == window_of(self.state()),
    {
        if self.stopped || self.cursor >= self.end {
            None
        } else {
            let reach = self.cursor + self.chunk;
            let to = if reach <= self.end {
                reach
            } else {
                self.end
            };
            Some((self.cursor, to))
        }
    }

    /// Moves past the current window, given the start time of the last item
    /// that it held (`None` for an empty page).
    pub fn advance(&mut self, last: Option<i64>)
        requires
            pager_wf(old(self).state()),
            window_of(old(self).state()) is Some,
            last matches Some(t) ==> t + old(self).state().step <= i64::MAX,
        ensures
            pager_wf(final(self).state()),
            final(self).state() == after_page(old(self).state(), last),
    {
        let reach = self.cursor + self.chunk;
        let to = if reach <= self.end {
            reach
        } else {
            self.end
        };
        match last {
            None => {
                self.cursor = to + 1;
                self.pages = self.pages + 1;
            },
            Some(t) => {
                let moved = t + self.step;
                let next = if moved >= to + 1 {
                    moved
                } else {
                    to + 1
                };
                if next <= self.cursor {
                    self.stopped = true;
                } else {
                    self.cursor = next;
                    self.pages = self.pages + 1;
                    self.stopped = self.pages > PAGE_CAP;
                }
            },
        }
    }

    /// The number of pages walked so far.
    pub fn pages(&self) -> (r: u64)
        ensures
            r == self.state().pages,
    {
        self.pages
    }
}

/// Every page moves the walk forward: the next window, if any, starts after
/// the current one, and all windows lie between the start and the end.
pub proof fn lemma_windows_move_forward(s: PagerState, last: Option<i64>)
    requires
        pager_wf(s),
        window_of(s) is Some,
        last matches Some(t) ==> t + s.step <= i64::MAX,
    ensures
        s.start <= window_of(s).unwrap().0 < window_of(s).unwrap().1 <= s.end,
        after_page(s, last).cursor > s.cursor,
        window_of(after_page(s, last)) matches Some(w) ==> w.0 > window_of(s).unwrap().1,
{
}

/// The earliest open time a cache may keep for a window of `days` days up
/// to `now_ms`: `now_ms` less the days, held at zero.
pub open spec fn cutoff_of(now_ms: u64, days: u32) -> u64 {
    if now_ms >= days * 86_400_000 {
        (now_ms - days * 86_400_000) as u64
    } else {
        0
    }
}

/// The earliest open time (ms) that a cached candle may have to count for a
/// window of `days` days up to `now_ms`.
pub fn cache_cutoff_ms(now_ms: u64, days: u32) -> (r: u64)
    ensures
        r == cutoff_of(now_ms, days),
{
    let back: u64 = days as u64 * 86_400_000;
    now_ms.saturating_sub(back)
}

/// The positions, in order, of the open times at or after `cutoff`.
pub fn kept_since(times: &Vec<u64>, cutoff: u64) -> (r: Vec<usize>)
    ensures
        r@ == kept_positions(times@, cutoff),
{
    let mut out: Vec<usize> = Vec::new();
    let mut i: usize = 0;
    while i < times.len()
        invariant
            i <= times.len(),
            out@ == kept_positions(times@.take(i as int), cutoff),
        decreases times.len() - i,
    {
        proof {
            assert(times@.take(i + 1).drop_last() =~= times@.take(i as int));
        }
        if times[i] >= cutoff {
            out.push(i);
        }
        i = i + 1;
    }
    assert(times@.take(times.len() as int) =~= times@);
    out
}

/// The positions, in order, of the times at or after `cutoff`.
pub open spec fn kept_positions(times: Seq<u64>, cutoff: u64) -> Seq<usize>
    decreases times.len(),
{
    if times.len() == 0 {
        Seq::empty()
    } else {
        let rest = kept_positions(times.drop_last(), cutoff);
        if times.last() >= cutoff {
            rest.push((times.len() - 1) as usize)
        } else {
            rest
        }
    }
}

/// The share of the expected candles that a cache holds, in percent: the
/// window of `days` days holds `days * 86400 / res_s` candles; a window
/// that expects none counts as fully covered.
pub open spec fn coverage_of(kept: usize, days: u32, res_s: i64) -> int {
    let expected = (days * 86_400) / (res_s as int);
    if expected > 0 {
        (kept * 100) / expected
    } else {
        100
    }
}

/// The coverage in percent of a cache holding `kept` candles of `res_s`
/// seconds for a window of `days` days.
pub fn cache_coverage(kept: usize, days: u32, res_s: i64) -> (r: usize)
    requires
        res_s > 0,
        kept * 100 <= usize::MAX,
        (days * 86_400) / (res_s as int) <= usize::MAX,
    ensures
        r == coverage_of(kept, days, res_s),
{
    let window: i64 = days as i64 * 86_400;
    let expected = (window / res_s) as usize;
    if expected > 0 {
        (kept * 100) / expected
    } else {
        100
    }
}

/// Whether a cache with the given coverage is used as it is.
pub fn coverage_sufficient(coverage: usize) -> (r: bool)
    ensures
        r == (coverage >= MIN_CACHE_COVERAGE),
{
    coverage >= MIN_CACHE_COVERAGE
}

/// The open time of the item at position `k` of an order.
pub open spec fn time_at(times: Seq<u64>, order: Seq<usize>, k: int) -> u64 {
    times[order[k] as int]
}

/// Whether `order` lists the candles to keep, in ascending time: positions
/// of `times`, with strictly rising times, one for each time that occurs,
/// and for each time the first position where it occurs.
pub open spec fn is_dedupe_order(times: Seq<u64>, order: Seq<usize>) -> bool {
    &&& forall|k: int| 0 <= k < order.len() ==> #[trigger] order[k] < times.len()
    &&& forall|k: int, l: int|
        0 <= k < l < order.len() ==> #[trigger] time_at(times, order, k) < #[trigger] time_at(
            times,
            order,
            l,
        )
    &&& forall|i: int| 0 <= i < times.len() ==> #[trigger] occurs_in(times, order, times[i])
    &&& forall|k: int, i: int|
        #![trigger times[i], time_at(times, order, k)]
        0 <= k < order.len() && 0 <= i < order[k] ==> times[i] != time_at(times, order, k)
}

/// Whether some position of `order` has open time `t`.
pub open spec fn occurs_in(times: Seq<u64>, order: Seq<usize>, t: u64) -> bool {
    exists|k: int| 0 <= k < order.len() && #[trigger] time_at(times, order, k) == t
}

/// The candles to keep, as positions into `times` (their open times), in
/// ascending time with duplicates removed; of equal times the first one is
/// kept.
pub fn dedupe_sort_order(times: &Vec<u64>) -> (r: Vec<usize>)
    ensures
        is_dedupe_order(times@, r@),
{
    let ghost ts = times@;
    let mut out: Vec<usize> = Vec::new();
    let mut i: usize = 0;
    while i < times.len()
        invariant
            ts == times@,
            i <= times.len(),
            forall|k: int| 0 <= k < out.len() ==> #[trigger] out@[k] < i,
            forall|k: int, l: int|
                0 <= k < l < out.len() ==> #[trigger] time_at(ts, out@, k) < #[trigger] time_at(
                    ts,
                    out@,
                    l,
                ),
            forall|j: int| 0 <= j < i ==> #[trigger] occurs_in(ts, out@, ts[j]),
            forall|k: int, j: int|
                #![trigger ts[j], time_at(ts, out@, k)]
                0 <= k < out.len() && 0 <= j < out@[k] ==> ts[j] != time_at(ts, out@, k),
        decreases times.len() - i,
    {
        let t = times[i];
        let mut lo: usize = 0;
        let mut hi: usize = out.len();
        while lo < hi
            invariant
                ts == times@,
                i < times.len(),
                t == ts[i as int],
                lo <= hi <= out.len(),
                forall|k: int| 0 <= k < out.len() ==> #[trigger] out@[k] < i,
                forall|k: int, l: int|
                    0 <= k < l < out.len() ==> #[trigger] time_at(ts, out@, k) < #[trigger] time_at(
                        ts,
                        out@,
                        l,
                    ),
                forall|k: int| 0 <= k < lo ==> #[trigger] time_at(ts, out@, k) < t,
                forall|k: int| hi <= k < out.len() ==> #[trigger] time_at(ts, out@, k) >= t,
            decreases hi - lo,
        {
            let mid = lo + (hi - lo) / 2;
            let at = out[mid];
            proof {
                assert(time_at(ts, out@, mid as int) == ts[at as int]);
            }
            if times[at] < t {
                lo = mid + 1;
            } else {
                assert forall|k: int| mid <= k < out.len() implies #[trigger] time_at(ts, out@, k)
                    >= t by {
                    if k > mid {
                        assert(time_at(ts, out@, mid as int) < time_at(ts, out@, k));
                    }
                }
                hi = mid;
            }
        }
        let present = lo < out.len() && times[out[lo]] == t;
        if present {
            proof {
                assert(time_at(ts, out@, lo as int) == ts[i as int]);
                assert(occurs_in(ts, out@, ts[i as int]));
                assert forall|j: int| 0 <= j < i + 1 implies #[trigger] occurs_in(ts, out@, ts[j]) by {
                    if j < i {
                        assert(occurs_in(ts, out@, ts[j]));
                    }
                }
            }
        } else {
            let ghost old_out = out@;
            proof {
                assert forall|j: int| 0 <= j < i implies ts[j] != t by {
                    if ts[j] == t {
                        assert(occurs_in(ts, old_out, ts[j]));
                        let k = choose|k: int| 0 <= k < old_out.len() && #[trigger] time_at(ts, old_out, k) == ts[j];
                        if k < lo {
                        } else if k == lo {
                        } else {
                            assert(time_at(ts, old_out, lo as int) < time_at(ts, old_out, k));
                        }
                    }
                }
            }
            out.insert(lo, i);
            proof {
                old_out.insert_ensures(lo as int, i);
                let n = out@;
                assert forall|k: int| 0 <= k < n.len() implies #[trigger] n[k] < i + 1 by {
                    if k < lo {
                        assert(n[k] == old_out[k]);
                    } else if k > lo {
                        assert(n[k] == old_out[k - 1]);
                    }
                }
                assert forall|k: int| 0 <= k < n.len() implies #[trigger] time_at(ts, n, k) == if k
                    < lo {
                    time_at(ts, old_out, k)
                } else if k == lo {
                    t
                } else {
                    time_at(ts, old_out, k - 1)
                } by {
                    if k < lo {
                        assert(n[k] == old_out[k]);
                    } else if k > lo {
                        assert(n[k] == old_out[k - 1]);
                    }
                }
                assert forall|k: int, l: int| 0 <= k < l < n.len() implies #[trigger] time_at(
                    ts,
                    n,
                    k,
                ) < #[trigger] time_at(ts, n, l) by {
                    if k < lo && l > lo {
                        assert(time_at(ts, old_out, k) < t);
                        assert(time_at(ts, old_out, l - 1) >= t);
                    } else if k < lo && l == lo {
                        assert(time_at(ts, old_out, k) < t);
                    } else if k == lo {
                        assert(time_at(ts, old_out, l - 1) >= t);
                    } else if k > lo {
                        assert(time_at(ts, old_out, k - 1) < time_at(ts, old_out, l - 1));
                    } else {
                        assert(time_at(ts, old_out, k) < time_at(ts, old_out, l));
                    }
                }
                assert forall|j: int| 0 <= j < i + 1 implies #[trigger] occurs_in(ts, n, ts[j]) by {
                    if j == i {
                        assert(time_at(ts, n, lo as int) == ts[j]);
                    } else {
                        assert(occurs_in(ts, old_out, ts[j]));
                        let k = choose|k: int| 0 <= k < old_out.len() && #[trigger] time_at(ts, old_out, k) == ts[j];
                        if k < lo {
                            assert(time_at(ts, n, k) == ts[j]);
                        } else {
                            assert(time_at(ts, n, k + 1) == ts[j]);
                        }
                    }
                }
                assert forall|k: int, j: int| 0 <= k < n.len() && 0 <= j < n[k] implies #[trigger] ts[j]
                    != #[trigger] time_at(ts, n, k) by {
                    if k < lo {
                        assert(n[k] == old_out[k]);
                        assert(ts[j] != time_at(ts, old_out, k));
                    } else if k > lo {
                        assert(n[k] == old_out[k - 1]);
                        assert(ts[j] != time_at(ts, old_out, k - 1));
                    }
                }
            }
        }
        i = i + 1;
    }
    out
}

} // verus!

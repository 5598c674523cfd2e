//! Time-weighted moving averages over a trailing window of ticks.
//!
//! A `SimpleMovingAverage` keeps the ticks whose timestamps lie within the
//! trailing `period` timestamp units, plus a `ref_tick` remembering the most
//! recently evicted tick (to account for the partial interval between the
//! oldest retained tick and `now - period`).  `push` appends a tick, evicts
//! what fell out of the window, and returns the time-weighted average of the
//! mid-prices; `push_tick` does the same for bid and ask independently.
//!
//! Ticks on one stream must arrive with strictly increasing timestamps.

use vstd::prelude::*;
use crate::tick::Tick;

verus! {

/// Price and period bound under which all the window arithmetic fits in u64.
pub const PRICE_BOUND: u64 = 0xffff_ffff;

/// Timestamps strictly increase along `s`.
pub open spec fn sorted_ticks(s: Seq<Tick>) -> bool {
    forall|i: int, j: int| 0 <= i < j < s.len() ==> s[i].timestamp < s[j].timestamp
}

/// Prices small enough that weighted sums over one period fit in u64.
pub open spec fn bounded_tick(t: Tick) -> bool {
    t.bid <= PRICE_BOUND && t.ask <= PRICE_BOUND
}

pub open spec fn bounded_ticks(s: Seq<Tick>) -> bool {
    forall|i: int| 0 <= i < s.len() ==> bounded_tick(#[trigger] s[i])
}

/// Sum over adjacent pairs (older, newer) of `w(older) * (newer.ts - older.ts)`.
pub open spec fn wsum(s: Seq<Tick>, w: spec_fn(Tick) -> int) -> int
    decreases s.len(),
{
    if s.len() < 2 {
        0
    } else {
        wsum(s.drop_last(), w) + w(s[s.len() - 2])
            * (s[s.len() - 1].timestamp - s[s.len() - 2].timestamp)
    }
}

/// Sum of the timestamp gaps over adjacent pairs of `s`.
pub open spec fn tsum(s: Seq<Tick>) -> int
    decreases s.len(),
{
    if s.len() < 2 {
        0
    } else {
        tsum(s.drop_last()) + (s[s.len() - 1].timestamp - s[s.len() - 2].timestamp)
    }
}

/// The timestamp gaps telescope: their sum is newest minus oldest.
pub proof fn lemma_tsum_telescopes(s: Seq<Tick>)
    requires
        s.len() >= 1,
    ensures
        tsum(s) == s[s.len() - 1].timestamp - s[0].timestamp,
    decreases s.len(),
{
    if s.len() >= 2 {
        lemma_tsum_telescopes(s.drop_last());
    }
}

/// If every window tick has weight `m`, the weighted sum is `m` times the
/// total time.
pub proof fn lemma_wsum_const(s: Seq<Tick>, w: spec_fn(Tick) -> int, m: int)
    requires
        forall|i: int| 0 <= i < s.len() ==> #[trigger] w(s[i]) == m,
    ensures
        wsum(s, w) == m * tsum(s),
    decreases s.len(),
{
    if s.len() < 2 {
        assert(m * 0 == 0) by (nonlinear_arith);
    } else {
        lemma_wsum_const(s.drop_last(), w, m);
        let dt = s[s.len() - 1].timestamp - s[s.len() - 2].timestamp;
        assert(m * tsum(s.drop_last()) + m * dt == m * (tsum(s.drop_last()) + dt))
            by (nonlinear_arith);
    }
}

/// The window with over-age ticks dropped from the front: while the span from
/// oldest to newest reaches `period`, the oldest tick leaves.
pub open spec fn spec_trimmed(s: Seq<Tick>, period: u64) -> Seq<Tick>
    decreases s.len(),
{
    if s.len() >= 2 && s[s.len() - 1].timestamp - s[0].timestamp >= period {
        spec_trimmed(s.subrange(1, s.len() as int), period)
    } else {
        s
    }
}

/// `spec_trimmed` keeps a non-empty suffix whose span is below `period`.
pub proof fn lemma_trimmed_props(s: Seq<Tick>, period: u64)
    requires
        period >= 1,
        s.len() >= 1,
        sorted_ticks(s),
    ensures
        1 <= spec_trimmed(s, period).len() <= s.len(),
        spec_trimmed(s, period) == s.subrange(
            s.len() - spec_trimmed(s, period).len(),
            s.len() as int,
        ),
        spec_trimmed(s, period)[spec_trimmed(s, period).len() - 1].timestamp
            - spec_trimmed(s, period)[0].timestamp < period,
        sorted_ticks(spec_trimmed(s, period)),
    decreases s.len(),
{
    let tr = spec_trimmed(s, period);
    if s.len() >= 2 && s[s.len() - 1].timestamp - s[0].timestamp >= period {
        let s1 = s.subrange(1, s.len() as int);
        assert(sorted_ticks(s1));
        lemma_trimmed_props(s1, period);
        assert(s1.subrange(s1.len() - tr.len(), s1.len() as int)
            =~= s.subrange(s.len() - tr.len(), s.len() as int));
    } else {
        assert(tr =~= s.subrange(s.len() - tr.len(), s.len() as int));
    }
}

/// The time-weighted average of weight `w` over the window `win`, with
/// `ref_tick` (when set, marked by a nonzero bid) accounting for the part of
/// the period older than the window.
pub open spec fn spec_avg_w(win: Seq<Tick>, ref_tick: Tick, period: u64, w: spec_fn(Tick) -> int) -> int {
    if ref_tick.bid != 0 {
        (wsum(win, w) + w(ref_tick) * (period - tsum(win))) / (period as int)
    } else {
        wsum(win, w) / tsum(win)
    }
}

pub open spec fn mid_weight() -> spec_fn(Tick) -> int {
    |t: Tick| t.spec_mid()
}

pub open spec fn bid_weight() -> spec_fn(Tick) -> int {
    |t: Tick| t.bid as int
}

pub open spec fn ask_weight() -> spec_fn(Tick) -> int {
    |t: Tick| t.ask as int
}

/// A time-weighted moving average of the ticks seen over the trailing
/// `period` timestamp units.
pub struct SimpleMovingAverage {
    pub period: u64,
    pub ticks: std::collections::VecDeque<Tick>,
    /// The most recently evicted tick; `bid == 0` means none has been evicted.
    pub ref_tick: Tick,
}

impl SimpleMovingAverage {
    /// Well-formedness: the window is sorted, within one period's span, and
    /// all prices are small enough that the averaging arithmetic cannot
    /// overflow.
    pub open spec fn wf(self) -> bool {
        &&& 1 <= self.period <= PRICE_BOUND
        &&& sorted_ticks(self.ticks@)
        &&& bounded_ticks(self.ticks@)
        &&& self.ticks@.len() >= 1 ==> self.ticks@[self.ticks@.len() - 1].timestamp
            - self.ticks@[0].timestamp < self.period
        &&& self.ref_tick.bid != 0 ==> bounded_tick(self.ref_tick)
    }

    /// How `push` changes the state: the tick goes on the back, over-age
    /// ticks leave the front, and the last tick evicted (if any) becomes the
    /// reference tick.
    pub open spec fn spec_push_post(pre: Self, post: Self, t: Tick) -> bool {
        let ns = pre.ticks@.push(t);
        let tr = spec_trimmed(ns, pre.period);
        let popped = ns.len() - tr.len();
        &&& post.period == pre.period
        &&& post.ticks@ == tr
        &&& post.ref_tick == if popped > 0 { ns[popped - 1] } else { pre.ref_tick }
    }

    /// The value `push` returns: the single tick's mid when the window holds
    /// one tick, otherwise the time-weighted average of mids.
    pub open spec fn spec_push_result(pre: Self, t: Tick) -> int {
        let ns = pre.ticks@.push(t);
        let tr = spec_trimmed(ns, pre.period);
        let popped = ns.len() - tr.len();
        let rt = if popped > 0 { ns[popped - 1] } else { pre.ref_tick };
        if tr.len() == 1 { tr[0].spec_mid() } else { spec_avg_w(tr, rt, pre.period, mid_weight()) }
    }

    /// The synthetic tick `push_tick` returns.
    pub open spec fn spec_push_tick_result(pre: Self, t: Tick) -> Tick {
        let ns = pre.ticks@.push(t);
        let tr = spec_trimmed(ns, pre.period);
        let popped = ns.len() - tr.len();
        let rt = if popped > 0 { ns[popped - 1] } else { pre.ref_tick };
        if tr.len() == 1 {
            tr[0]
        } else {
            Tick {
                bid: spec_avg_w(tr, rt, pre.period, bid_weight()) as u64,
                ask: spec_avg_w(tr, rt, pre.period, ask_weight()) as u64,
                timestamp: tr[tr.len() - 1].timestamp,
            }
        }
    }

    /// An empty average over a window of `period` timestamp units.
    pub fn new(period: u64) -> (r: SimpleMovingAverage)
        requires
            1 <= period <= PRICE_BOUND,
        ensures
            r.wf(),
            r.period == period,
            r.ticks@.len() == 0,
            r.ref_tick == (Tick { bid: 0, ask: 0, timestamp: 0 }),
    {
        SimpleMovingAverage {
            period,
            ticks: std::collections::VecDeque::new(),
            ref_tick: Tick::null(),
        }
    }

    /// Whether the window span has reached the period, so the front must go.
    fn is_overflown(&self) -> (r: bool)
        requires
            self.ticks@.len() >= 1,
            sorted_ticks(self.ticks@),
        ensures
            r == (self.ticks@[self.ticks@.len() - 1].timestamp - self.ticks@[0].timestamp
                >= self.period),
    {
        let n = self.ticks.len();
        let diff = self.ticks[n - 1].timestamp - self.ticks[0].timestamp;
        diff >= self.period
    }

    /// Drops over-age ticks from the front; returns the last one dropped
    /// (the null tick when none was).
    fn trim(&mut self) -> (r: Tick)
        requires
            1 <= old(self).period,
            old(self).ticks@.len() >= 1,
            sorted_ticks(old(self).ticks@),
        ensures
            final(self).period == old(self).period,
            final(self).ref_tick == old(self).ref_tick,
            final(self).ticks@ == spec_trimmed(old(self).ticks@, old(self).period),
            ({
                let popped = old(self).ticks@.len() - final(self).ticks@.len();
                r == if popped > 0 {
                    old(self).ticks@[popped - 1]
                } else {
                    (Tick { bid: 0, ask: 0, timestamp: 0 })
                }
            }),
    {
        let mut r = Tick::null();
        let ghost orig = self.ticks@;
        let ghost mut popped: int = 0;
        while self.is_overflown()
            invariant
                self.period == old(self).period,
                self.ref_tick == old(self).ref_tick,
                1 <= self.period,
                self.ticks@.len() >= 1,
                sorted_ticks(self.ticks@),
                0 <= popped <= orig.len() - self.ticks@.len(),
                popped == orig.len() - self.ticks@.len(),
                self.ticks@ == orig.subrange(popped, orig.len() as int),
                spec_trimmed(orig, self.period) == spec_trimmed(self.ticks@, self.period),
                popped > 0 ==> r == orig[popped - 1],
                popped == 0 ==> r == (Tick { bid: 0, ask: 0, timestamp: 0 }),
            decreases self.ticks@.len(),
        {
            proof {
                assert(self.ticks@.subrange(1, self.ticks@.len() as int)
                    =~= orig.subrange(popped + 1, orig.len() as int));
            }
            let t0 = self.ticks.pop_front();
            r = t0.unwrap();
            proof {
                popped = popped + 1;
            }
        }
        proof {
            assert(orig.subrange(0, orig.len() as int) =~= orig);
        }
        r
    }

    /// The time-weighted average of mids over the current window.
    fn average(&self) -> (r: u64)
        requires
            1 <= self.period <= PRICE_BOUND,
            self.ticks@.len() >= 2,
            sorted_ticks(self.ticks@),
            bounded_ticks(self.ticks@),
            self.ticks@[self.ticks@.len() - 1].timestamp - self.ticks@[0].timestamp < self.period,
            self.ref_tick.bid != 0 ==> bounded_tick(self.ref_tick),
        ensures
            r == spec_avg_w(self.ticks@, self.ref_tick, self.period, mid_weight()),
    {
        let ghost s = self.ticks@;
        let ghost w = mid_weight();
        let n = self.ticks.len();
        let mut p_sum: u64 = 0;
        let mut t_sum: u64 = 0;
        let mut i: usize = 1;
        while i < n
            invariant
                n == s.len(),
                s == self.ticks@,
                1 <= i <= n,
                2 <= n,
                1 <= self.period <= PRICE_BOUND,
                sorted_ticks(s),
                bounded_ticks(s),
                s[s.len() - 1].timestamp - s[0].timestamp < self.period,
                w == mid_weight(),
                p_sum == wsum(s.subrange(0, i as int), w),
                t_sum == tsum(s.subrange(0, i as int)),
                t_sum == s[i - 1].timestamp - s[0].timestamp,
                p_sum <= PRICE_BOUND * t_sum,
            decreases n - i,
        {
            let prev = self.ticks[i - 1];
            let cur = self.ticks[i];
            let t_diff = cur.timestamp - prev.timestamp;
            let m = prev.mid();
            proof {
                let pre = s.subrange(0, i as int);
                let post = s.subrange(0, (i + 1) as int);
                assert(post.drop_last() =~= pre);
                assert(0 <= m <= PRICE_BOUND);
                assert(m * t_diff <= PRICE_BOUND * t_diff && m * t_diff >= 0) by (nonlinear_arith)
                    requires 0 <= m <= PRICE_BOUND, 0 <= t_diff;
                assert(s[i as int].timestamp - s[0].timestamp < self.period);
                assert(PRICE_BOUND * t_sum + PRICE_BOUND * t_diff
                    == PRICE_BOUND * (t_sum + t_diff)) by (nonlinear_arith);
                assert(PRICE_BOUND * (t_sum + t_diff) <= PRICE_BOUND * PRICE_BOUND)
                    by (nonlinear_arith)
                    requires 0 <= t_sum + t_diff <= PRICE_BOUND;
            }
            p_sum = p_sum + m * t_diff;
            t_sum = t_sum + t_diff;
            i += 1;
        }
        proof {
            assert(s.subrange(0, n as int) =~= s);
        }
        if self.ref_tick.bid != 0 {
            let old_time = self.period - t_sum;
            let rm = self.ref_tick.mid();
            proof {
                assert(rm * old_time <= PRICE_BOUND * old_time && rm * old_time >= 0)
                    by (nonlinear_arith)
                    requires 0 <= rm <= PRICE_BOUND, 0 <= old_time;
                assert(PRICE_BOUND * t_sum + PRICE_BOUND * old_time
                    == PRICE_BOUND * (t_sum + old_time)) by (nonlinear_arith);
                assert(PRICE_BOUND * (t_sum + old_time) <= PRICE_BOUND * PRICE_BOUND)
                    by (nonlinear_arith)
                    requires 0 <= t_sum + old_time <= PRICE_BOUND;
            }
            p_sum = p_sum + old_time * rm;
            t_sum = self.period;
            p_sum / t_sum
        } else {
            proof {
                lemma_tsum_telescopes(s);
            }
            p_sum / t_sum
        }
    }

    /// Adds a tick and returns the new time-weighted average of mids.
    ///
    /// Ticks must arrive with strictly increasing timestamps; with a single
    /// tick in the window the result is that tick's mid.
    pub fn push(&mut self, t: Tick) -> (r: u64)
        requires
            old(self).wf(),
            bounded_tick(t),
            old(self).ticks@.len() >= 1 ==> t.timestamp
                > old(self).ticks@[old(self).ticks@.len() - 1].timestamp,
        ensures
            final(self).wf(),
            Self::spec_push_post(*old(self), *final(self), t),
            r == Self::spec_push_result(*old(self), t),
    {
        let ghost ns = old(self).ticks@.push(t);
        self.ticks.push_back(t);
        proof {
            assert(sorted_ticks(ns));
            assert(bounded_ticks(ns));
            lemma_trimmed_props(ns, self.period);
        }
        if self.is_overflown() {
            let rt = self.trim();
            self.ref_tick = rt;
            proof {
                // the front tick is over-age, so at least one tick was evicted
                assert(spec_trimmed(ns, self.period) != ns);
            }
        } else {
            proof {
                assert(spec_trimmed(ns, self.period) == ns);
            }
        }
        proof {
            let tr = spec_trimmed(ns, old(self).period);
            assert(self.ticks@ == tr);
            assert(forall|i: int| 0 <= i < tr.len() ==> tr[i] == ns[ns.len() - tr.len() + i]);
        }
        if self.ticks.len() == 1 {
            return self.ticks[0].mid();
        }
        self.average()
    }

    /// The time-weighted average applied independently to bid and ask; the
    /// result carries the newest timestamp in the window.
    pub fn average_tick(&self) -> (r: Tick)
        requires
            1 <= self.period <= PRICE_BOUND,
            self.ticks@.len() >= 2 || (self.ticks@.len() >= 1 && self.ref_tick.bid != 0),
            sorted_ticks(self.ticks@),
            bounded_ticks(self.ticks@),
            self.ticks@[self.ticks@.len() - 1].timestamp - self.ticks@[0].timestamp < self.period,
            self.ref_tick.bid != 0 ==> bounded_tick(self.ref_tick),
        ensures
            r.bid == spec_avg_w(self.ticks@, self.ref_tick, self.period, bid_weight()),
            r.ask == spec_avg_w(self.ticks@, self.ref_tick, self.period, ask_weight()),
            r.timestamp == self.ticks@[self.ticks@.len() - 1].timestamp,
    {
        let ghost s = self.ticks@;
        let ghost wb = bid_weight();
        let ghost wa = ask_weight();
        let n = self.ticks.len();
        let mut bid_sum: u64 = 0;
        let mut ask_sum: u64 = 0;
        let mut t_sum: u64 = 0;
        let mut i: usize = 1;
        while i < n
            invariant
                n == s.len(),
                s == self.ticks@,
                1 <= i <= n,
                1 <= self.period <= PRICE_BOUND,
                sorted_ticks(s),
                bounded_ticks(s),
                s[s.len() - 1].timestamp - s[0].timestamp < self.period,
                wb == bid_weight(),
                wa == ask_weight(),
                bid_sum == wsum(s.subrange(0, i as int), wb),
                ask_sum == wsum(s.subrange(0, i as int), wa),
                t_sum == tsum(s.subrange(0, i as int)),
                t_sum == s[i - 1].timestamp - s[0].timestamp,
                bid_sum <= PRICE_BOUND * t_sum,
                ask_sum <= PRICE_BOUND * t_sum,
            decreases n - i,
        {
            let prev = self.ticks[i - 1];
            let cur = self.ticks[i];
            let t_diff = cur.timestamp - prev.timestamp;
            proof {
                let pre = s.subrange(0, i as int);
                let post = s.subrange(0, (i + 1) as int);
                assert(post.drop_last() =~= pre);
                assert(prev.bid * t_diff <= PRICE_BOUND * t_diff && prev.bid * t_diff >= 0)
                    by (nonlinear_arith)
                    requires 0 <= prev.bid <= PRICE_BOUND, 0 <= t_diff;
                assert(prev.ask * t_diff <= PRICE_BOUND * t_diff && prev.ask * t_diff >= 0)
                    by (nonlinear_arith)
                    requires 0 <= prev.ask <= PRICE_BOUND, 0 <= t_diff;
                assert(s[i as int].timestamp - s[0].timestamp < self.period);
                assert(PRICE_BOUND * t_sum + PRICE_BOUND * t_diff
                    == PRICE_BOUND * (t_sum + t_diff)) by (nonlinear_arith);
                assert(PRICE_BOUND * (t_sum + t_diff) <= PRICE_BOUND * PRICE_BOUND)
                    by (nonlinear_arith)
                    requires 0 <= t_sum + t_diff <= PRICE_BOUND;
            }
            bid_sum = bid_sum + prev.bid * t_diff;
            ask_sum = ask_sum + prev.ask * t_diff;
            t_sum = t_sum + t_diff;
            i += 1;
        }
        proof {
            assert(s.subrange(0, n as int) =~= s);
        }
        if self.ref_tick.bid != 0 {
            let old_time = self.period - t_sum;
            proof {
                assert(self.ref_tick.bid * old_time <= PRICE_BOUND * old_time
                    && self.ref_tick.bid * old_time >= 0) by (nonlinear_arith)
                    requires 0 <= self.ref_tick.bid <= PRICE_BOUND, 0 <= old_time;
                assert(self.ref_tick.ask * old_time <= PRICE_BOUND * old_time
                    && self.ref_tick.ask * old_time >= 0) by (nonlinear_arith)
                    requires 0 <= self.ref_tick.ask <= PRICE_BOUND, 0 <= old_time;
                assert(PRICE_BOUND * t_sum + PRICE_BOUND * old_time
                    == PRICE_BOUND * (t_sum + old_time)) by (nonlinear_arith);
                assert(PRICE_BOUND * (t_sum + old_time) <= PRICE_BOUND * PRICE_BOUND)
                    by (nonlinear_arith)
                    requires 0 <= t_sum + old_time <= PRICE_BOUND;
                assert(0 <= PRICE_BOUND * t_sum) by (nonlinear_arith)
                    requires 0 <= t_sum;
                assert(old_time * self.ref_tick.bid == self.ref_tick.bid * old_time)
                    by (nonlinear_arith);
                assert(old_time * self.ref_tick.ask == self.ref_tick.ask * old_time)
                    by (nonlinear_arith);
                assert(bid_sum + old_time * self.ref_tick.bid <= PRICE_BOUND * PRICE_BOUND);
                assert(ask_sum + old_time * self.ref_tick.ask <= PRICE_BOUND * PRICE_BOUND);
            }
            bid_sum = bid_sum + old_time * self.ref_tick.bid;
            ask_sum = ask_sum + old_time * self.ref_tick.ask;
            t_sum = self.period;
            proof {
                assert(wb(self.ref_tick) == self.ref_tick.bid as int);
                assert(wa(self.ref_tick) == self.ref_tick.ask as int);
                assert(bid_sum == wsum(s, wb) + wb(self.ref_tick) * (self.period - tsum(s)));
                assert(ask_sum == wsum(s, wa) + wa(self.ref_tick) * (self.period - tsum(s)));
                assert(bid_sum as int / (t_sum as int)
                    == spec_avg_w(s, self.ref_tick, self.period, wb));
                assert(ask_sum as int / (t_sum as int)
                    == spec_avg_w(s, self.ref_tick, self.period, wa));
            }
        } else {
            proof {
                // with no reference tick the window holds at least two ticks
                assert(s.len() >= 2);
                lemma_tsum_telescopes(s);
                assert(s[0].timestamp < s[s.len() - 1].timestamp);
                assert(t_sum > 0);
                assert(bid_sum as int / (t_sum as int)
                    == spec_avg_w(s, self.ref_tick, self.period, wb));
                assert(ask_sum as int / (t_sum as int)
                    == spec_avg_w(s, self.ref_tick, self.period, wa));
            }
        }
        let n2 = self.ticks.len();
        Tick { bid: bid_sum / t_sum, ask: ask_sum / t_sum, timestamp: self.ticks[n2 - 1].timestamp }
    }

    /// Adds a tick and returns a synthetic tick whose bid and ask are the
    /// time-weighted averages of the window's bids and asks.
    pub fn push_tick(&mut self, t: Tick) -> (r: Tick)
        requires
            old(self).wf(),
            bounded_tick(t),
            old(self).ticks@.len() >= 1 ==> t.timestamp
                > old(self).ticks@[old(self).ticks@.len() - 1].timestamp,
        ensures
            final(self).wf(),
            Self::spec_push_post(*old(self), *final(self), t),
            r == Self::spec_push_tick_result(*old(self), t),
    {
        let ghost ns = old(self).ticks@.push(t);
        self.ticks.push_back(t);
        proof {
            assert(sorted_ticks(ns));
            assert(bounded_ticks(ns));
            lemma_trimmed_props(ns, self.period);
        }
        if self.is_overflown() {
            let rt = self.trim();
            self.ref_tick = rt;
            proof {
                assert(spec_trimmed(ns, self.period) != ns);
            }
        } else {
            proof {
                assert(spec_trimmed(ns, self.period) == ns);
            }
        }
        proof {
            let tr = spec_trimmed(ns, old(self).period);
            assert(self.ticks@ == tr);
            assert(forall|i: int| 0 <= i < tr.len() ==> tr[i] == ns[ns.len() - tr.len() + i]);
        }
        if self.ticks.len() == 1 {
            return self.ticks[0];
        }
        self.average_tick()
    }

    /// Like `push`, but detects an out-of-order tick instead of requiring
    /// callers to rule it out: `None` is returned, and nothing changes,
    /// exactly when the tick's timestamp does not exceed the newest one.
    pub fn push_checked(&mut self, t: Tick) -> (r: Option<u64>)
        requires
            old(self).wf(),
            bounded_tick(t),
        ensures
            final(self).wf(),
            r == if old(self).ticks@.len() >= 1 && t.timestamp
                <= old(self).ticks@[old(self).ticks@.len() - 1].timestamp {
                Option::<u64>::None
            } else {
                Option::Some(Self::spec_push_result(*old(self), t) as u64)
            },
            r is None ==> *final(self) == *old(self),
            r is Some ==> Self::spec_push_post(*old(self), *final(self), t),
    {
        let n = self.ticks.len();
        if n >= 1 && t.timestamp <= self.ticks[n - 1].timestamp {
            return None;
        }
        Some(self.push(t))
    }
}

/// Law: pushing a tick into an empty average returns that tick's mid.
pub proof fn lemma_push_single_tick(pre: SimpleMovingAverage, t: Tick)
    requires
        pre.wf(),
        pre.ticks@.len() == 0,
    ensures
        SimpleMovingAverage::spec_push_result(pre, t) == t.spec_mid(),
{
    let ns = pre.ticks@.push(t);
    assert(ns.len() == 1);
    assert(spec_trimmed(ns, pre.period) == ns);
}

/// Law: once every tick in the window, the pushed tick, and the reference
/// tick (when one is set) share the same mid `m`, a push returns exactly
/// `m` — in particular, for a constant-mid stream the average is that
/// constant once the window has filled.
pub proof fn lemma_push_constant_mid(pre: SimpleMovingAverage, t: Tick, m: int)
    requires
        pre.wf(),
        bounded_tick(t),
        pre.ticks@.len() >= 1 ==> t.timestamp > pre.ticks@[pre.ticks@.len() - 1].timestamp,
        forall|i: int| 0 <= i < pre.ticks@.len()
            ==> (#[trigger] pre.ticks@[i]).spec_mid() == m,
        t.spec_mid() == m,
        pre.ref_tick.bid != 0 ==> pre.ref_tick.spec_mid() == m,
    ensures
        SimpleMovingAverage::spec_push_result(pre, t) == m,
{
    let ns = pre.ticks@.push(t);
    let tr = spec_trimmed(ns, pre.period);
    let popped = ns.len() - tr.len();
    let rt = if popped > 0 { ns[popped - 1] } else { pre.ref_tick };
    assert(sorted_ticks(ns));
    lemma_trimmed_props(ns, pre.period);
    assert(forall|i: int| 0 <= i < ns.len() ==> (#[trigger] ns[i]).spec_mid() == m);
    assert(forall|i: int| 0 <= i < tr.len() ==> tr[i] == ns[ns.len() - tr.len() + i]);
    if tr.len() == 1 {
        assert(tr[0].spec_mid() == m);
    } else {
        let w = mid_weight();
        assert(forall|i: int| 0 <= i < tr.len() ==> #[trigger] w(tr[i]) == m);
        lemma_wsum_const(tr, w, m);
        lemma_tsum_telescopes(tr);
        if rt.bid != 0 {
            assert(rt.spec_mid() == m);
            assert(w(rt) == m);
            assert(m * tsum(tr) + m * ((pre.period - tsum(tr)) as int)
                == m * (pre.period as int)) by (nonlinear_arith);
            vstd::arithmetic::div_mod::lemma_div_multiples_vanish(m, pre.period as int);
            assert((pre.period as int) * m == m * (pre.period as int)) by (nonlinear_arith);
        } else {
            assert(tr[0].timestamp < tr[tr.len() - 1].timestamp);
            let d = tsum(tr);
            assert(d > 0);
            vstd::arithmetic::div_mod::lemma_div_multiples_vanish(m, d);
            assert(d * m == m * d) by (nonlinear_arith);
        }
    }
}

/// A collection of moving averages keyed by period; a tick pushed to the
/// list fans out to every member.
pub struct SMAList {
    pub smas: Vec<SimpleMovingAverage>,
}

impl SMAList {
    pub open spec fn wf(self) -> bool {
        forall|i: int| 0 <= i < self.smas@.len() ==> (#[trigger] self.smas@[i]).wf()
    }

    /// Every member is ready to accept `t`.
    pub open spec fn accepts(self, t: Tick) -> bool {
        forall|i: int| 0 <= i < self.smas@.len() ==> ((#[trigger] self.smas@[i]).ticks@.len() >= 1
            ==> t.timestamp > self.smas@[i].ticks@[self.smas@[i].ticks@.len() - 1].timestamp)
    }

    pub fn new() -> (r: SMAList)
        ensures
            r.wf(),
            r.smas@.len() == 0,
    {
        SMAList { smas: Vec::new() }
    }

    /// Pushes `t` into every tracked average.
    pub fn push_all(&mut self, t: Tick)
        requires
            old(self).wf(),
            old(self).accepts(t),
            bounded_tick(t),
        ensures
            final(self).wf(),
            final(self).smas@.len() == old(self).smas@.len(),
            forall|i: int| 0 <= i < old(self).smas@.len()
                ==> SimpleMovingAverage::spec_push_post(
                    old(self).smas@[i],
                    #[trigger] final(self).smas@[i],
                    t,
                ),
    {
        let n = self.smas.len();
        let mut i: usize = 0;
        while i < n
            invariant
                n == old(self).smas@.len(),
                self.smas@.len() == n,
                i <= n,
                bounded_tick(t),
                forall|j: int| i <= j < n ==> self.smas@[j] == old(self).smas@[j],
                forall|j: int| 0 <= j < i ==> SimpleMovingAverage::spec_push_post(
                    old(self).smas@[j],
                    #[trigger] self.smas@[j],
                    t,
                ),
                forall|j: int| 0 <= j < n ==> (#[trigger] self.smas@[j]).wf(),
                old(self).accepts(t),
            decreases n - i,
        {
            let sma = &mut self.smas[i];
            proof {
                assert(old(self).smas@[i as int].wf());
            }
            let _ = sma.push(t);
            i += 1;
        }
    }

    /// Starts tracking a new average with the given period.
    pub fn add(&mut self, period: u64)
        requires
            old(self).wf(),
            1 <= period <= PRICE_BOUND,
        ensures
            final(self).wf(),
            final(self).smas@.len() == old(self).smas@.len() + 1,
            forall|i: int| 0 <= i < old(self).smas@.len()
                ==> final(self).smas@[i] == old(self).smas@[i],
            final(self).smas@[old(self).smas@.len() as int].period == period,
            final(self).smas@[old(self).smas@.len() as int].ticks@.len() == 0,
            final(self).smas@[old(self).smas@.len() as int].ref_tick == (Tick {
                bid: 0,
                ask: 0,
                timestamp: 0,
            }),
    {
        self.smas.push(SimpleMovingAverage::new(period));
    }

    /// Stops tracking the first average with the given period; tracking an
    /// absent period is not an error and changes nothing.
    pub fn remove(&mut self, period: u64)
        requires
            old(self).wf(),
        ensures
            final(self).wf(),
            (forall|i: int| 0 <= i < old(self).smas@.len()
                ==> (#[trigger] old(self).smas@[i]).period != period)
                ==> *final(self) == *old(self),
            (exists|i: int| 0 <= i < old(self).smas@.len()
                && (#[trigger] old(self).smas@[i]).period == period)
                ==> exists|k: int| 0 <= k < old(self).smas@.len()
                    && (#[trigger] old(self).smas@[k]).period == period
                    && (forall|j: int| 0 <= j < k
                        ==> (#[trigger] old(self).smas@[j]).period != period)
                    && final(self).smas@ == old(self).smas@.remove(k),
    {
        let n = self.smas.len();
        let mut i: usize = 0;
        while i < n
            invariant
                n == self.smas@.len(),
                *self == *old(self),
                old(self).wf(),
                i <= n,
                forall|j: int| 0 <= j < i ==> (#[trigger] self.smas@[j]).period != period,
            decreases n - i,
        {
            if self.smas[i].period == period {
                self.smas.remove(i);
                proof {
                    assert(0 <= i < old(self).smas@.len()
                        && old(self).smas@[i as int].period == period);
                    assert forall|j: int| 0 <= j < self.smas@.len()
                        implies (#[trigger] self.smas@[j]).wf() by {
                        let s0 = old(self).smas@;
                        assert(self.smas@[j] == (s0.subrange(0, i as int)
                            + s0.subrange(i as int + 1, s0.len() as int))[j]);
                        if j < i {
                            assert(self.smas@[j] == s0[j]);
                            assert(s0[j].wf());
                        } else {
                            assert(self.smas@[j] == s0[j + 1]);
                            assert(s0[j + 1].wf());
                        }
                    }
                }
                return;
            }
            i += 1;
        }
    }
}

} // verus!

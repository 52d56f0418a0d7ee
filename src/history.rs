//! Bearing samples of one contact over a sliding time window, and the plot
//! segments drawn from them.
use vstd::prelude::*;
use crate::angle::{FULL_TURN, is_normalized};

verus! {

/// Bearing difference between adjacent samples above which the line between
/// them is taken to cross north rather than sweep the whole scale: 300
/// degrees. A drawing heuristic; every function that uses it takes the
/// threshold as a parameter.
pub const WRAP_THRESHOLD: i64 = 300_000_000;

/// One sample: simulation time (microseconds) and relative bearing
/// (microdegrees).
#[derive(Clone, Copy, Debug, PartialEq, Eq, Structural)]
pub struct BearingRecord {
    pub timestamp: u64,
    pub relative_bearing: i64,
}

/// Timestamps never decrease along the sequence and every bearing is
/// normalized.
pub open spec fn records_wf(s: Seq<BearingRecord>) -> bool {
    &&& forall|i: int, j: int| 0 <= i <= j < s.len() ==> s[i].timestamp <= s[j].timestamp
    &&& forall|i: int| 0 <= i < s.len() ==> is_normalized(#[trigger] s[i].relative_bearing as int)
}

/// Age of a record at time `now`.
pub open spec fn age(r: BearingRecord, now: u64) -> int {
    now - r.timestamp
}

/// What is left of `s` once the leading records older than `window` at
/// `now` are removed.
pub open spec fn pruned(s: Seq<BearingRecord>, now: u64, window: u64) -> Seq<BearingRecord>
    decreases s.len(),
{
    if s.len() > 0 && age(s[0], now) > window {
        pruned(s.drop_first(), now, window)
    } else {
        s
    }
}

/// Pruning keeps a suffix, and a sorted one keeps no record older than the
/// window.
pub proof fn lemma_pruned_within_window(s: Seq<BearingRecord>, now: u64, window: u64)
    requires
        records_wf(s),
    ensures
        records_wf(pruned(s, now, window)),
        exists|k: int| 0 <= k <= s.len() && pruned(s, now, window) == s.subrange(k, s.len() as int),
        forall|i: int| 0 <= i < pruned(s, now, window).len()
            ==> age(#[trigger] pruned(s, now, window)[i], now) <= window,
    decreases s.len(),
{
    if s.len() > 0 && age(s[0], now) > window {
        let t = s.drop_first();
        assert(records_wf(t)) by {
            assert forall|i: int| 0 <= i < t.len() implies is_normalized(#[trigger] t[i].relative_bearing as int) by {
                assert(t[i] == s[i + 1]);
            }
        }
        lemma_pruned_within_window(t, now, window);
        let k = choose|k: int| 0 <= k <= t.len() && pruned(t, now, window) == t.subrange(k, t.len() as int);
        assert(t.subrange(k, t.len() as int) =~= s.subrange(k + 1, s.len() as int));
    } else {
        assert(s.subrange(0, s.len() as int) =~= s);
        if s.len() > 0 {
            assert forall|i: int| 0 <= i < s.len() implies age(#[trigger] s[i], now) <= window by {
                assert(s[0].timestamp <= s[i].timestamp);
            }
        }
    }
}

/// The time-ordered bearing samples of one contact.
pub struct BearingHistory {
    records: std::collections::VecDeque<BearingRecord>,
}

impl View for BearingHistory {
    type V = Seq<BearingRecord>;

    closed spec fn view(&self) -> Seq<BearingRecord> {
        self.records@
    }
}

impl BearingHistory {
    pub open spec fn wf(&self) -> bool {
        records_wf(self@)
    }

    /// An empty history.
    pub fn new() -> (r: BearingHistory)
        ensures
            r@ == Seq::<BearingRecord>::empty(),
            r.wf(),
    {
        BearingHistory { records: std::collections::VecDeque::new() }
    }

    pub fn len(&self) -> (r: usize)
        ensures
            r == self@.len(),
    {
        self.records.len()
    }

    /// The record at position `i`, oldest first.
    pub fn get(&self, i: usize) -> (r: BearingRecord)
        requires
            i < self@.len(),
        ensures
            r == self@[i as int],
    {
        self.records[i]
    }

    /// Appends a sample at the tail. Samples must come in time order.
    pub fn record(&mut self, timestamp: u64, relative_bearing: i64)
        requires
            old(self).wf(),
            is_normalized(relative_bearing as int),
            old(self)@.len() == 0 || old(self)@.last().timestamp <= timestamp,
        ensures
            final(self)@ == old(self)@.push(BearingRecord { timestamp, relative_bearing }),
            final(self).wf(),
    {
        self.records.push_back(BearingRecord { timestamp, relative_bearing });
        proof {
            let s = self@;
            assert forall|i: int, j: int| 0 <= i <= j < s.len() implies s[i].timestamp <= s[j].timestamp by {
                if j == s.len() - 1 && i < j {
                    assert(old(self)@[i].timestamp <= old(self)@.last().timestamp);
                }
            }
        }
    }

    /// Removes from the head every record older than `window` at `now`,
    /// stopping at the first one still inside it.
    pub fn prune(&mut self, now: u64, window: u64)
        requires
            old(self).wf(),
        ensures
            final(self)@ == pruned(old(self)@, now, window),
            final(self).wf(),
            forall|i: int| 0 <= i < final(self)@.len() ==> age(#[trigger] final(self)@[i], now) <= window,
    {
        proof { lemma_pruned_within_window(self@, now, window); }
        while self.records.len() > 0 && now >= self.records[0].timestamp
            && now - self.records[0].timestamp > window
            invariant
                self.wf(),
                pruned(self@, now, window) == pruned(old(self)@, now, window),
            decreases self@.len(),
        {
            let ghost before = self@;
            self.records.pop_front();
            proof {
                assert(self@ =~= before.drop_first());
                assert forall|i: int| 0 <= i < self@.len() implies is_normalized(#[trigger] self@[i].relative_bearing as int) by {
                    assert(self@[i] == before[i + 1]);
                }
                assert forall|i: int, j: int| 0 <= i <= j < self@.len() implies self@[i].timestamp <= self@[j].timestamp by {
                    assert(self@[i] == before[i + 1] && self@[j] == before[j + 1]);
                }
            }
        }
        proof { lemma_pruned_within_window(old(self)@, now, window); }
    }

    /// Each adjacent pair of records, oldest first.
    pub fn consecutive_pairs(&self) -> (r: Vec<(BearingRecord, BearingRecord)>)
        ensures
            r@.len() == if self@.len() == 0 { 0 } else { self@.len() - 1 },
            forall|i: int| 0 <= i < r@.len() ==> #[trigger] r@[i] == (self@[i], self@[i + 1]),
    {
        let mut r: Vec<(BearingRecord, BearingRecord)> = Vec::new();
        let n = self.records.len();
        if n == 0 {
            return r;
        }
        let mut i: usize = 1;
        while i < n
            invariant
                n == self@.len(),
                1 <= i <= n,
                r@.len() == i - 1,
                forall|k: int| 0 <= k < r@.len() ==> #[trigger] r@[k] == (self@[k], self@[k + 1]),
            decreases n - i,
        {
            r.push((self.records[i - 1], self.records[i]));
            i = i + 1;
        }
        r
    }

    /// The plot segments of the whole history, pair by pair.
    pub fn plot_segments(&self, threshold: i64) -> (r: Vec<PlotSegment>)
        requires
            self.wf(),
        ensures
            r@ == history_segments(self@, threshold as int),
    {
        let mut r: Vec<PlotSegment> = Vec::new();
        let n = self.records.len();
        if n < 2 {
            return r;
        }
        let mut i: usize = 1;
        while i < n
            invariant
                n == self@.len(),
                self.wf(),
                1 <= i <= n,
                r@ == history_segments(self@.subrange(0, i as int), threshold as int),
            decreases n - i,
        {
            let mut seg = segments_between(self.records[i - 1], self.records[i], threshold);
            proof { lemma_history_segments_step(self@, i as int, threshold as int); }
            r.append(&mut seg);
            i = i + 1;
        }
        proof {
            assert(self@.subrange(0, n as int) =~= self@);
        }
        r
    }
}

/// A line of the bearing-time plot, from `(start_time, start_bearing)` to
/// `(end_time, end_bearing)`.
#[derive(Clone, Copy, Debug, PartialEq, Eq, Structural)]
pub struct PlotSegment {
    pub start_time: u64,
    pub start_bearing: i64,
    pub end_time: u64,
    pub end_bearing: i64,
}

pub open spec fn abs_diff(a: int, b: int) -> int {
    if a >= b { a - b } else { b - a }
}

/// Adjacent samples whose bearings differ by more than `threshold` are
/// taken to have crossed north.
pub open spec fn wraps(r1: BearingRecord, r2: BearingRecord, threshold: int) -> bool {
    abs_diff(r1.relative_bearing as int, r2.relative_bearing as int) > threshold
}

pub open spec fn segment(t1: u64, b1: i64, t2: u64, b2: i64) -> PlotSegment {
    PlotSegment { start_time: t1, start_bearing: b1, end_time: t2, end_bearing: b2 }
}

/// The segments drawn between two adjacent samples: one direct line, or,
/// across north, one line from the first sample to the edge of the scale it
/// is leaving and one from the opposite edge to the second sample.
pub open spec fn pair_segments(r1: BearingRecord, r2: BearingRecord, threshold: int) -> Seq<PlotSegment> {
    let (t1, b1, t2, b2) = (r1.timestamp, r1.relative_bearing, r2.timestamp, r2.relative_bearing);
    if wraps(r1, r2, threshold) {
        if b1 > b2 {
            seq![segment(t1, b1, t2, FULL_TURN), segment(t1, 0, t2, b2)]
        } else {
            seq![segment(t1, b1, t2, 0), segment(t1, FULL_TURN, t2, b2)]
        }
    } else {
        seq![segment(t1, b1, t2, b2)]
    }
}

/// The segments of every adjacent pair of `s`, in order.
pub open spec fn history_segments(s: Seq<BearingRecord>, threshold: int) -> Seq<PlotSegment>
    decreases s.len(),
{
    if s.len() < 2 {
        Seq::empty()
    } else {
        history_segments(s.drop_last(), threshold)
            + pair_segments(s[s.len() - 2], s[s.len() - 1], threshold)
    }
}

proof fn lemma_history_segments_step(s: Seq<BearingRecord>, i: int, threshold: int)
    requires
        1 <= i < s.len(),
    ensures
        history_segments(s.subrange(0, i + 1), threshold)
            == history_segments(s.subrange(0, i), threshold) + pair_segments(s[i - 1], s[i], threshold),
{
    let next = s.subrange(0, i + 1);
    assert(next.drop_last() =~= s.subrange(0, i));
    assert(next[i - 1] == s[i - 1] && next[i] == s[i]);
}

/// Whether the line between two samples crosses north.
pub fn is_wraparound(r1: BearingRecord, r2: BearingRecord, threshold: i64) -> (r: bool)
    requires
        is_normalized(r1.relative_bearing as int),
        is_normalized(r2.relative_bearing as int),
    ensures
        r == wraps(r1, r2, threshold as int),
{
    let d = if r1.relative_bearing >= r2.relative_bearing {
        r1.relative_bearing - r2.relative_bearing
    } else {
        r2.relative_bearing - r1.relative_bearing
    };
    d > threshold
}

/// The plot segments between two adjacent samples.
pub fn segments_between(r1: BearingRecord, r2: BearingRecord, threshold: i64) -> (r: Vec<PlotSegment>)
    requires
        is_normalized(r1.relative_bearing as int),
        is_normalized(r2.relative_bearing as int),
    ensures
        r@ == pair_segments(r1, r2, threshold as int),
{
    let (t1, b1, t2, b2) = (r1.timestamp, r1.relative_bearing, r2.timestamp, r2.relative_bearing);
    let r = if is_wraparound(r1, r2, threshold) {
        if b1 > b2 {
            vec![
                PlotSegment { start_time: t1, start_bearing: b1, end_time: t2, end_bearing: FULL_TURN },
                PlotSegment { start_time: t1, start_bearing: 0, end_time: t2, end_bearing: b2 },
            ]
        } else {
            vec![
                PlotSegment { start_time: t1, start_bearing: b1, end_time: t2, end_bearing: 0 },
                PlotSegment { start_time: t1, start_bearing: FULL_TURN, end_time: t2, end_bearing: b2 },
            ]
        }
    } else {
        vec![PlotSegment { start_time: t1, start_bearing: b1, end_time: t2, end_bearing: b2 }]
    };
    assert(r@ =~= pair_segments(r1, r2, threshold as int));
    r
}

} // verus!

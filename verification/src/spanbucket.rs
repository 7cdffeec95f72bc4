//! Buckets: bounded samples of finished spans, one for each latency range or
//! status code, and the latency ranges themselves.

use crate::basetypes::Duration;
use crate::export::SpanData;
use vstd::prelude::*;

verus! {

/// The least time between two spans that a bucket accepts, in nanoseconds.
pub const SAMPLE_PERIOD: u64 = 1_000_000_000;

/// The number of boundaries between latency ranges.
pub const LATENCY_BOUNDARIES: usize = 8;

/// The boundaries between the latency ranges, in nanoseconds: 10µs, 100µs,
/// 1ms, 10ms, 100ms, 1s, 10s and 60s.
pub const DEFAULT_LATENCIES: [u64; 8] = [
    10_000,
    100_000,
    1_000_000,
    10_000_000,
    100_000_000,
    1_000_000_000,
    10_000_000_000,
    60_000_000_000,
];

/// Boundary `i` between the latency ranges.
pub open spec fn latency_boundary(i: int) -> u64 {
    DEFAULT_LATENCIES@[i]
}

/// The range that a latency of `nanos` falls in: the number of boundaries
/// that it has reached.
pub open spec fn latency_range(nanos: u64) -> int {
    if nanos < latency_boundary(0) {
        0
    } else if nanos < latency_boundary(1) {
        1
    } else if nanos < latency_boundary(2) {
        2
    } else if nanos < latency_boundary(3) {
        3
    } else if nanos < latency_boundary(4) {
        4
    } else if nanos < latency_boundary(5) {
        5
    } else if nanos < latency_boundary(6) {
        6
    } else if nanos < latency_boundary(7) {
        7
    } else {
        8
    }
}

/// The least latency of range `idx`.
pub open spec fn range_start(idx: int) -> u64 {
    if idx == 0 {
        0
    } else {
        latency_boundary(idx - 1)
    }
}

/// The end of range `idx`: the least latency above it, and for the last
/// range the longest time there is.
pub open spec fn range_end(idx: int) -> u64 {
    if idx == LATENCY_BOUNDARIES {
        u64::MAX
    } else {
        latency_boundary(idx)
    }
}

/// The index of the range that `latency` falls in.
pub fn latency_bucket(latency: Duration) -> (i: usize)
    ensures
        i == latency_range(latency.0),
        i <= LATENCY_BOUNDARIES,
{
    let mut i: usize = 0;
    while i < LATENCY_BOUNDARIES && latency.0 >= DEFAULT_LATENCIES[i]
        invariant
            i <= LATENCY_BOUNDARIES,
            forall|j: int| 0 <= j < i ==> latency.0 >= latency_boundary(j),
        decreases LATENCY_BOUNDARIES - i,
    {
        i += 1;
    }
    proof {
        if i < LATENCY_BOUNDARIES {
            assert(latency.0 < latency_boundary(i as int));
        }
        lemma_range_is_count(latency.0, i as int);
    }
    i
}

/// The range of a latency is the number of boundaries that it has reached:
/// it has reached every boundary below its range, and not the next.
pub proof fn lemma_range_is_count(nanos: u64, i: int)
    requires
        0 <= i <= LATENCY_BOUNDARIES,
        forall|j: int| 0 <= j < i ==> nanos >= latency_boundary(j),
        i < LATENCY_BOUNDARIES ==> nanos < latency_boundary(i),
    ensures
        latency_range(nanos) == i,
{
}

/// The bounds of range `idx`: its least latency, and its end.
pub fn latency_bucket_bounds(idx: usize) -> (bounds: (Duration, Duration))
    requires
        idx <= LATENCY_BOUNDARIES,
    ensures
        bounds.0.0 == range_start(idx as int),
        bounds.1.0 == range_end(idx as int),
{
    if idx == 0 {
        (Duration(0), Duration(DEFAULT_LATENCIES[idx]))
    } else if idx == LATENCY_BOUNDARIES {
        (Duration(DEFAULT_LATENCIES[idx - 1]), Duration(u64::MAX))
    } else {
        (Duration(DEFAULT_LATENCIES[idx - 1]), Duration(DEFAULT_LATENCIES[idx]))
    }
}

/// A latency falls in range `idx` exactly when it is at least the start of
/// the range and below its end; the last range has no end.
pub proof fn lemma_range_bounds(nanos: u64, idx: int)
    requires
        0 <= idx <= LATENCY_BOUNDARIES,
    ensures
        latency_range(nanos) == idx <==> range_start(idx) <= nanos && (idx < LATENCY_BOUNDARIES
            ==> nanos < range_end(idx)),
{
}

/// A boundary parts two ranges: a latency equal to boundary `k` falls in the
/// range above it, one nanosecond less in the range below.
pub proof fn lemma_boundary_parts_ranges(k: int)
    requires
        0 <= k < LATENCY_BOUNDARIES,
    ensures
        latency_range(latency_boundary(k)) == k + 1,
        latency_range((latency_boundary(k) - 1) as u64) == k,
{
}

/// A longer latency never falls in a lower range.
pub proof fn lemma_range_is_monotonic(a: u64, b: u64)
    requires
        a <= b,
    ensures
        latency_range(a) <= latency_range(b),
{
}

/// What a bucket of `capacity` places holds after `s` was added to `spans`:
/// the most recent `capacity` spans, oldest first.
pub open spec fn appended(spans: Seq<SpanData>, s: SpanData, capacity: nat) -> Seq<SpanData> {
    if capacity == 0 {
        spans
    } else if spans.len() < capacity {
        spans.push(s)
    } else {
        spans.subrange(1, spans.len() as int).push(s)
    }
}

/// The most recent `n` of `spans`, oldest first; all of them where there are
/// no more than `n`.
pub open spec fn most_recent(spans: Seq<SpanData>, n: nat) -> Seq<SpanData> {
    if spans.len() <= n {
        spans
    } else {
        spans.subrange(spans.len() - n, spans.len() as int)
    }
}

/// The view of a bucket.
pub struct BucketView {
    /// The number of spans that the bucket can hold.
    pub capacity: nat,
    /// The spans in the bucket, oldest first.
    pub spans: Seq<SpanData>,
    /// The earliest time, in nanoseconds, at which the next span is due. It
    /// is kept, and nothing is refused on its account.
    pub next_due: nat,
}

impl BucketView {
    /// The empty bucket for `capacity` spans.
    pub open spec fn empty(capacity: nat) -> BucketView {
        BucketView { capacity, spans: Seq::empty(), next_due: 0 }
    }

    /// The bucket after `s` was added. A span without an end time is not
    /// finished and is left out, and a bucket without capacity takes nothing.
    /// Else the span becomes the most recent one, in the place of the oldest
    /// where the bucket is full, and the next span is due one `SAMPLE_PERIOD`
    /// after the end of this one.
    pub open spec fn added(self, s: SpanData) -> BucketView {
        match s.end_time {
            Some(end) if self.capacity > 0 => BucketView {
                capacity: self.capacity,
                spans: appended(self.spans, s, self.capacity),
                next_due: end.0 as nat + SAMPLE_PERIOD as nat,
            },
            _ => self,
        }
    }

    /// The bucket with the capacity `n`. The spans stay in their order; where
    /// there are more than `n`, only the most recent `n` stay.
    pub open spec fn resized(self, n: nat) -> BucketView {
        BucketView { capacity: n, spans: most_recent(self.spans, n), next_due: self.next_due }
    }

    /// The bucket after the spans `records` were added one after the other.
    pub open spec fn added_all(self, records: Seq<SpanData>) -> BucketView
        decreases records.len(),
    {
        if records.len() == 0 {
            self
        } else {
            self.added_all(records.drop_last()).added(records.last())
        }
    }
}

/// A bucket keeps the most recent spans in the order in which they came:
/// after finished spans were added to an empty bucket, it holds the last
/// `capacity` of them, and all of them where they are fewer; and resized to
/// `n`, whether it had wrapped around or not, it holds the last `n` of those.
pub proof fn lemma_bucket_keeps_most_recent(capacity: nat, records: Seq<SpanData>, n: nat)
    requires
        forall|i: int| 0 <= i < records.len() ==> (#[trigger] records[i]).end_time is Some,
    ensures
        BucketView::empty(capacity).added_all(records).capacity == capacity,
        BucketView::empty(capacity).added_all(records).spans == most_recent(records, capacity),
        BucketView::empty(capacity).added_all(records).resized(n).spans == most_recent(
            records,
            if n < capacity {
                n
            } else {
                capacity
            },
        ),
    decreases records.len(),
{
    let filled = BucketView::empty(capacity).added_all(records);
    if records.len() > 0 {
        let front = records.drop_last();
        let last = records.last();
        lemma_bucket_keeps_most_recent(capacity, front, n);
        let before = BucketView::empty(capacity).added_all(front);
        assert(filled == before.added(last));
        assert(filled.spans =~= most_recent(records, capacity));
    } else {
        assert(filled.spans =~= most_recent(records, capacity));
    }
    assert(most_recent(filled.spans, n) =~= most_recent(
        records,
        if n < capacity {
            n
        } else {
            capacity
        },
    ));
}

/// The most recent spans of one latency range or status code: a ring of
/// fixed capacity that, once full, lets each new span take the place of the
/// oldest.
#[derive(Debug)]
pub struct Bucket {
    // the earliest time, in nanoseconds, at which the next span is due
    next_time: u128,
    // the ring; it grows up to `capacity` and is then written in place
    buffer: Vec<SpanData>,
    // the number of spans that the ring can hold
    capacity: usize,
    // where the next span goes
    next_index: usize,
    // whether the ring is full, so that `next_index` is the oldest span
    overflow: bool,
}

impl View for Bucket {
    type V = BucketView;

    closed spec fn view(&self) -> BucketView {
        BucketView {
            capacity: self.capacity as nat,
            spans: if self.overflow {
                self.buffer@.subrange(self.next_index as int, self.buffer@.len() as int)
                    + self.buffer@.subrange(0, self.next_index as int)
            } else {
                self.buffer@
            },
            next_due: self.next_time as nat,
        }
    }
}

impl Bucket {
    /// The invariant of the ring.
    pub closed spec fn wf(&self) -> bool {
        if self.overflow {
            &&& self.buffer@.len() == self.capacity
            &&& self.next_index <= self.capacity
            &&& self.capacity > 0 ==> self.next_index < self.capacity
        } else {
            &&& self.next_index == self.buffer@.len()
            &&& self.buffer@.len() <= self.capacity
            &&& self.capacity > 0 ==> self.buffer@.len() < self.capacity
        }
    }

    /// A bucket never holds more spans than its capacity.
    pub proof fn lemma_size_bound(&self)
        requires
            self.wf(),
        ensures
            self@.spans.len() <= self@.capacity,
    {
    }

    /// An empty bucket for `buffer_size` spans.
    pub fn new(buffer_size: usize) -> (b: Bucket)
        ensures
            b.wf(),
            b@ == BucketView::empty(buffer_size as nat),
    {
        Bucket {
            next_time: 0,
            buffer: Vec::new(),
            capacity: buffer_size,
            next_index: 0,
            overflow: false,
        }
    }

    /// Adds a finished span: see `BucketView::added`.
    pub fn add(&mut self, s: SpanData)
        requires
            old(self).wf(),
        ensures
            final(self).wf(),
            final(self)@ == old(self)@.added(s),
    {
        if let Some(end_time) = s.end_time {
            if self.capacity == 0 {
                return;
            }
            self.next_time = end_time.0 as u128 + SAMPLE_PERIOD as u128;
            let ghost before = self.buffer@;
            let ghost cursor = self.next_index as int;
            if self.overflow {
                self.buffer[self.next_index] = s;
                assert(self.buffer@ == before.update(cursor, s));
            } else {
                self.buffer.push(s);
            }
            self.next_index += 1;
            if self.next_index == self.capacity {
                self.next_index = 0;
                self.overflow = true;
            }
            proof {
                if old(self).overflow {
                    let n = before.len() as int;
                    let now = self.buffer@;
                    let old_spans = before.subrange(cursor, n) + before.subrange(0, cursor);
                    assert(old_spans.subrange(1, n).push(s) =~= now.subrange(
                        self.next_index as int,
                        n,
                    ) + now.subrange(0, self.next_index as int));
                } else {
                    let now = self.buffer@;
                    if self.overflow {
                        assert(now.subrange(0, now.len() as int) + now.subrange(0, 0) =~= now);
                    }
                }
            }
        }
    }

    /// The number of spans that the bucket can hold.
    pub fn capacity(&self) -> (n: usize)
        ensures
            n == self@.capacity,
    {
        self.capacity
    }

    /// The earliest time, in nanoseconds, at which the next span is due.
    pub fn next_time(&self) -> (t: u128)
        ensures
            t == self@.next_due,
    {
        self.next_time
    }

    /// The number of spans in the bucket.
    pub fn size(&self) -> (n: usize)
        requires
            self.wf(),
        ensures
            n == self@.spans.len(),
            n <= self@.capacity,
    {
        if self.overflow {
            self.buffer.len()
        } else {
            self.next_index
        }
    }

    /// The span at `idx`, counted from the oldest.
    pub fn span(&self, idx: usize) -> (s: &SpanData)
        requires
            self.wf(),
            idx < self@.spans.len(),
        ensures
            *s == self@.spans[idx as int],
    {
        if !self.overflow {
            &self.buffer[idx]
        } else if idx < self.buffer.len() - self.next_index {
            &self.buffer[self.next_index + idx]
        } else {
            &self.buffer[idx - (self.buffer.len() - self.next_index)]
        }
    }

    /// Gives the bucket the capacity `new_size`: see `BucketView::resized`.
    pub fn resize(&mut self, new_size: usize)
        requires
            old(self).wf(),
        ensures
            final(self).wf(),
            final(self)@ == old(self)@.resized(new_size as nat),
    {
        let current_size = self.size();
        let ghost chronological = self@.spans;
        let mut all: Vec<SpanData> = Vec::new();
        std::mem::swap(&mut all, &mut self.buffer);
        if self.overflow {
            let mut oldest_first = all.split_off(self.next_index);
            oldest_first.append(&mut all);
            all = oldest_first;
        }
        assert(all@ == chronological);
        if current_size < new_size {
            self.buffer = all;
            self.capacity = new_size;
            self.next_index = current_size;
            self.overflow = false;
            return;
        }
        let kept = all.split_off(current_size - new_size);
        self.buffer = kept;
        self.capacity = new_size;
        self.next_index = 0;
        self.overflow = true;
        proof {
            let now = self.buffer@;
            assert(now.subrange(0, now.len() as int) + now.subrange(0, 0) =~= now);
            assert(chronological.subrange(0, chronological.len() as int) =~= chronological);
        }
    }
}

} // verus!

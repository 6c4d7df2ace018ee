//! A fixed-length ring buffer that keeps the most recent samples of a metric.
use vstd::prelude::*;

verus! {

/// Position in the ring of the `i`-th oldest sample, for a head at `head`.
pub open spec fn ring_index(head: int, i: int, len: int) -> int {
    if head + i < len {
        head + i
    } else {
        head + i - len
    }
}

/// The samples of a ring buffer `buf` whose oldest entry sits at `head`,
/// from oldest to newest.
pub open spec fn ring_window(buf: Seq<u64>, head: int) -> Seq<u64> {
    Seq::new(buf.len(), |i: int| buf[ring_index(head, i, buf.len() as int)])
}

/// What a window of samples becomes when `v` is recorded: the oldest sample
/// leaves and `v` becomes the newest.
pub open spec fn shift_in(window: Seq<u64>, v: u64) -> Seq<u64> {
    window.drop_first().push(v)
}

/// The window after recording each value of `values` in turn.
pub open spec fn shift_in_all(window: Seq<u64>, values: Seq<u64>) -> Seq<u64>
    decreases values.len(),
{
    if values.len() == 0 {
        window
    } else {
        shift_in(shift_in_all(window, values.drop_last()), values.last())
    }
}

/// A time series of `u64` samples of fixed length; appending overwrites the
/// oldest sample.
pub struct TimeSeries {
    internal_time_series: Vec<u64>,
    internal_head_pointer: usize,
}

impl View for TimeSeries {
    type V = Seq<u64>;

    /// The samples from oldest to newest.
    closed spec fn view(&self) -> Seq<u64> {
        ring_window(self.internal_time_series@, self.internal_head_pointer as int)
    }
}

proof fn lemma_mod_once(x: int, n: int)
    requires
        0 < n,
        0 <= x < 2 * n,
    ensures
        x % n == (if x < n { x } else { x - n }),
{
    if x < n {
        vstd::arithmetic::div_mod::lemma_small_mod(x as nat, n as nat);
    } else {
        vstd::arithmetic::div_mod::lemma_small_mod((x - n) as nat, n as nat);
        vstd::arithmetic::div_mod::lemma_mod_sub_multiples_vanish(x, n);
    }
}

impl TimeSeries {
    /// The head always points into the buffer (or is zero for an empty one).
    pub closed spec fn wf(&self) -> bool {
        if self.internal_time_series.len() == 0 {
            self.internal_head_pointer == 0
        } else {
            self.internal_head_pointer < self.internal_time_series.len()
        }
    }

    /// A series of `length` samples, all zero.
    pub fn new(length: usize) -> (ts: TimeSeries)
        ensures
            ts.wf(),
            ts@ == Seq::new(length as nat, |i: int| 0u64),
    {
        let zeroed_ts: Vec<u64> = vec![0; length];
        let ts = TimeSeries { internal_time_series: zeroed_ts, internal_head_pointer: 0 };
        assert(ts@ =~= Seq::new(length as nat, |i: int| 0u64));
        ts
    }

    /// The number of samples the series holds.
    pub fn length(&self) -> (len: usize)
        ensures
            len == self@.len(),
    {
        self.internal_time_series.len()
    }

    /// Records `value` as the newest sample, dropping the oldest one.
    pub fn append(&mut self, value: u64)
        requires
            old(self).wf(),
            old(self)@.len() > 0,
        ensures
            final(self).wf(),
            final(self)@ == shift_in(old(self)@, value),
    {
        let ghost old_window = self@;
        let ghost head = self.internal_head_pointer as int;
        let ghost len = self.internal_time_series.len() as int;
        let head_pointer = self.internal_head_pointer;
        self.internal_time_series.set(head_pointer, value);
        let len_now = self.internal_time_series.len();
        proof {
            lemma_mod_once(head + 1, len);
        }
        let next = (head_pointer + 1) % len_now;
        self.internal_head_pointer = next;
        proof {
            let new_window = self@;
            let expected = shift_in(old_window, value);
            assert forall|i: int| 0 <= i < len implies new_window[i] == expected[i] by {
                if i < len - 1 {
                    assert(ring_index(next as int, i, len) == ring_index(head, i + 1, len));
                } else {
                    assert(ring_index(next as int, i, len) == head);
                }
            }
            assert(new_window =~= expected);
        }
    }

    /// The samples from oldest to newest.
    pub fn as_array(&self) -> (result: Vec<u64>)
        requires
            self.wf(),
        ensures
            result@ == self@,
    {
        let len = self.length();
        let mut result: Vec<u64> = Vec::with_capacity(len);
        let head = self.internal_head_pointer;
        let mut i: usize = 0;
        while i < len
            invariant
                len == self.internal_time_series.len(),
                len > 0 ==> head < len,
                head == self.internal_head_pointer,
                i <= len,
                result@ == self@.take(i as int),
            decreases len - i,
        {
            // (head + i) % len, computed without leaving the range of usize
            let index = if head < len - i {
                head + i
            } else {
                head - (len - i)
            };
            result.push(self.internal_time_series[index]);
            i = i + 1;
            proof {
                assert(result@ =~= self@.take(i as int));
            }
        }
        proof {
            assert(self@.take(len as int) =~= self@);
        }
        result
    }
}

/// Recording values one after another keeps exactly the most recent ones:
/// a non-empty window `w` that takes in `values` holds the last `w.len()`
/// entries of `w` followed by `values`.
pub proof fn lemma_keeps_most_recent(w: Seq<u64>, values: Seq<u64>)
    requires
        w.len() > 0,
    ensures
        shift_in_all(w, values) == (w + values).skip(values.len() as int),
    decreases values.len(),
{
    if values.len() > 0 {
        let prefix = values.drop_last();
        lemma_keeps_most_recent(w, prefix);
        assert((w + prefix).skip(prefix.len() as int).drop_first().push(values.last())
            =~= (w + values).skip(values.len() as int));
    } else {
        assert((w + values).skip(0) =~= w);
    }
}

/// Recording a value never changes the number of samples.
pub proof fn lemma_shift_in_keeps_length(w: Seq<u64>, v: u64)
    requires
        w.len() > 0,
    ensures
        shift_in(w, v).len() == w.len(),
{
}

} // verus!

//! Counting events per process and turning the counts into time series.
use vstd::prelude::*;
use std::collections::HashMap;
use crate::events::{Event, EventData, EventKind, TimeSeriesData, TimeSeriesEvent, spec_log_event_kind};
use crate::time_series::{TimeSeries, shift_in};
use vstd::std_specs::hash::spec_hash_map_iter;
use vstd::std_specs::iter::IteratorSpec;

verus! {

broadcast use vstd::std_specs::hash::group_hash_axioms;

/// The number of samples each per-process time series keeps.
pub const TIMESERIES_LENGTH: usize = 40;

/// The actor that aggregates events of one kind into time series.
pub struct Aggregator;

/// A window of `TIMESERIES_LENGTH` zero samples.
pub open spec fn zero_window() -> Seq<u64> {
    Seq::new(TIMESERIES_LENGTH as nat, |i: int| 0u64)
}

/// The time series after a tick: each counted process records its count as its
/// newest sample (a new series starts from zeros); other series are unchanged.
pub open spec fn tick_series(series: Map<u32, Seq<u64>>, counts: Map<u32, u64>) -> Map<u32, Seq<u64>> {
    Map::new(
        |pid: u32| series.dom().contains(pid) || counts.dom().contains(pid),
        |pid: u32|
            if counts.dom().contains(pid) {
                shift_in(
                    if series.dom().contains(pid) {
                        series[pid]
                    } else {
                        zero_window()
                    },
                    counts[pid],
                )
            } else {
                series[pid]
            },
    )
}

/// The counts after a tick: every counted process is back at zero.
pub open spec fn reset_counts(counts: Map<u32, u64>) -> Map<u32, u64> {
    Map::new(|pid: u32| counts.dom().contains(pid), |pid: u32| 0u64)
}

/// The count of process `pid` after one more of its events: one more than
/// before (a process not counted yet was at zero), staying at `u64::MAX`
/// once there.
pub open spec fn next_count(counts: Map<u32, u64>, pid: u32) -> u64 {
    let before = if counts.dom().contains(pid) {
        counts[pid]
    } else {
        0u64
    };
    if before < u64::MAX {
        (before + 1) as u64
    } else {
        u64::MAX
    }
}

/// The counts after an event of process `pid`.
pub open spec fn count_event(counts: Map<u32, u64>, pid: u32) -> Map<u32, u64> {
    counts.insert(pid, next_count(counts, pid))
}

/// The state of an aggregator: the kind of events it counts, the counts of
/// the current timeframe and the time series of past timeframes.
pub struct AggregatorState {
    event_type: EventKind,
    event_count_map: HashMap<u32, u64>,
    timeframe_ms: u128,
    time_series_map: HashMap<u32, TimeSeries>,
}

impl AggregatorState {
    /// The kind of events counted.
    pub closed spec fn kind(&self) -> EventKind {
        self.event_type
    }

    /// The length of a timeframe in milliseconds.
    pub closed spec fn timeframe(&self) -> u128 {
        self.timeframe_ms
    }

    /// The count of each process in the current timeframe.
    pub closed spec fn counts(&self) -> Map<u32, u64> {
        self.event_count_map@
    }

    /// The time series of each process, samples from oldest to newest.
    pub closed spec fn series(&self) -> Map<u32, Seq<u64>> {
        self.time_series_map@.map_values(|ts: TimeSeries| ts@)
    }

    /// Every time series is well formed and has `TIMESERIES_LENGTH` samples.
    pub closed spec fn wf(&self) -> bool {
        forall|pid: u32| #[trigger]
            self.time_series_map@.contains_key(pid) ==> self.time_series_map@[pid].wf()
                && self.time_series_map@[pid]@.len() == TIMESERIES_LENGTH
    }

    /// A fresh state for events of kind `event_type`, with no counts and no series.
    pub fn new(event_type: EventKind, timeframe_ms: u128) -> (s: Self)
        ensures
            s.wf(),
            s.kind() == event_type,
            s.timeframe() == timeframe_ms,
            s.counts() == Map::<u32, u64>::empty(),
            s.series() == Map::<u32, Seq<u64>>::empty(),
    {
        let s = AggregatorState {
            event_type,
            event_count_map: HashMap::new(),
            timeframe_ms,
            time_series_map: HashMap::new(),
        };
        assert(s.series() =~= Map::<u32, Seq<u64>>::empty());
        s
    }

    /// The kind of events counted.
    pub fn event_kind(&self) -> (k: EventKind)
        ensures
            k == self.kind(),
    {
        self.event_type
    }

    /// Handles one message. A log event is counted for its process; any other
    /// message is the tick of the timer: the counts become the newest samples
    /// of the time series, which are returned for sending. The counts stay
    /// until `clear_counts` is called, once the series are sent.
    pub fn handle(&mut self, msg: Event) -> (out: Option<TimeSeriesEvent>)
        requires
            old(self).wf(),
            msg.event_data matches Some(EventData::Log(ev)) ==> ev.context is Some
                && spec_log_event_kind(ev) == Some(old(self).kind()),
        ensures
            final(self).wf(),
            final(self).kind() == old(self).kind(),
            final(self).timeframe() == old(self).timeframe(),
            match msg.event_data {
                Some(EventData::Log(ev)) => {
                    &&& out is None
                    &&& final(self).counts() == count_event(old(self).counts(), ev.context->0.pid)
                    &&& final(self).series() == old(self).series()
                },
                _ => {
                    &&& final(self).counts() == old(self).counts()
                    &&& final(self).series() == tick_series(old(self).series(), old(self).counts())
                    &&& out matches Some(ts) && {
                        &&& ts.event_kind == old(self).kind()
                        &&& ts.timeframe_ms == old(self).timeframe() as u32
                        &&& ts.time_series_map@.dom() == final(self).series().dom()
                        &&& forall|pid: u32| #[trigger]
                            ts.time_series_map@.contains_key(pid)
                                ==> ts.time_series_map@[pid].list@ == final(self).series()[pid]
                    }
                },
            },
    {
        match msg.event_data {
            Some(EventData::Log(event)) => {
                let pid = match event.context {
                    Some(c) => c.pid,
                    None => 0,
                };
                let before: u64 = match self.event_count_map.get(&pid) {
                    Some(c) => *c,
                    None => 0,
                };
                self.event_count_map.insert(pid, before.saturating_add(1));
                proof {
                    assert(self.counts() =~= count_event(old(self).counts(), pid));
                }
                None
            },
            _ => {
                self.tick();
                let time_series = TimeSeriesEvent {
                    event_kind: self.event_type,
                    timeframe_ms: self.timeframe_ms as u32,
                    time_series_map: self.convert_map_to_prototype(),
                };
                Some(time_series)
            },
        }
    }

    /// Records the counts as the newest samples.
    fn tick(&mut self)
        requires
            old(self).wf(),
        ensures
            final(self).wf(),
            final(self).kind() == old(self).kind(),
            final(self).timeframe() == old(self).timeframe(),
            final(self).counts() == old(self).counts(),
            final(self).series() == tick_series(old(self).series(), old(self).counts()),
    {
        let ghost old_series = self.series();
        let ghost counts = self.counts();
        let ghost mut seen: Set<u32> = Set::empty();
        let ghost entries = spec_hash_map_iter(&self.event_count_map).remaining();
        let ghost mut done: int = 0;
        for entry in it: self.event_count_map.iter()
            invariant
                self.wf(),
                self.event_type == old(self).event_type,
                self.timeframe_ms == old(self).timeframe_ms,
                entries == it.seq(),
                done == it.index(),
                counts == self.event_count_map@,
                it.seq() == spec_hash_map_iter(&self.event_count_map).remaining(),
                it.seq().no_duplicates(),
                forall|i: int|
                    0 <= i < it.index() ==> seen.contains(*#[trigger] it.seq()[i].0),
                forall|i: int|
                    it.index() <= i < it.seq().len() ==> !seen.contains(
                        *#[trigger] it.seq()[i].0,
                    ),
                forall|pid: u32| #[trigger]
                    seen.contains(pid) ==> counts.contains_key(pid),
                forall|pid: u32| #[trigger]
                    self.series().contains_key(pid) <==> (old_series.contains_key(pid)
                        || seen.contains(pid)),
                forall|pid: u32| #[trigger]
                    self.series().contains_key(pid) ==> self.series()[pid] == if seen.contains(
                        pid,
                    ) {
                        tick_series(old_series, counts)[pid]
                    } else {
                        old_series[pid]
                    },
        {
            let (pid_ref, count_ref) = entry;
            let pid = *pid_ref;
            let count = *count_ref;
            let ghost idx = it.index();
            proof {
                assert(entry == it.seq()[idx]);
                assert(counts.contains_key(pid) && counts[pid] == count);
                assert(!seen.contains(pid));
                assert forall|i: int| it.index() < i < it.seq().len() implies *#[trigger] it.seq()[i].0 != pid by {
                    if *it.seq()[i].0 == pid {
                        assert(it.seq()[i] == it.seq()[idx]);
                    }
                }
            }
            let ghost prev = self.series();
            let ghost prev_map = self.time_series_map@;
            let mut ts = match self.time_series_map.remove(&pid) {
                Some(ts) => ts,
                None => TimeSeries::new(TIMESERIES_LENGTH),
            };
            proof {
                assert(prev.contains_key(pid) == prev_map.contains_key(pid));
                assert(prev.contains_key(pid) == old_series.contains_key(pid));
                if prev_map.contains_key(pid) {
                    assert(ts@ == prev[pid]);
                    assert(prev[pid] == old_series[pid]);
                } else {
                    assert(!old_series.contains_key(pid));
                    assert(ts@ =~= zero_window());
                }
            }
            ts.append(count);
            let ghost ts_view = ts@;
            assert(ts_view == tick_series(old_series, counts)[pid]);
            self.time_series_map.insert(pid, ts);
            proof {
                assert(self.time_series_map@ == prev_map.remove(pid).insert(pid, ts));
                assert(self.series() =~= prev.insert(pid, ts_view));
                done = done + 1;
                seen = seen.insert(pid);
            }
        }
        proof {
            assert forall|pid: u32| counts.contains_key(pid) implies seen.contains(pid) by {
                assert(entries.contains((&pid, &counts[pid])));
                let k = choose|i: int| 0 <= i < entries.len() && entries[i] == (&pid, &counts[pid]);
                assert(*entries[k].0 == pid);
            }
            assert(self.series() =~= tick_series(old_series, counts));
        }
    }

    /// Sets every count back to zero, keeping the processes counted: done
    /// once the series of a tick are sent.
    pub fn clear_counts(&mut self)
        requires
            old(self).wf(),
        ensures
            final(self).wf(),
            final(self).kind() == old(self).kind(),
            final(self).timeframe() == old(self).timeframe(),
            final(self).counts() == reset_counts(old(self).counts()),
            final(self).series() == old(self).series(),
    {
        let ghost counts = self.counts();
        let mut reset: HashMap<u32, u64> = HashMap::new();
        let ghost entries = spec_hash_map_iter(&self.event_count_map).remaining();
        for entry in it: self.event_count_map.iter()
            invariant
                entries == it.seq(),
                counts == self.event_count_map@,
                it.seq() == spec_hash_map_iter(&self.event_count_map).remaining(),
                forall|i: int|
                    0 <= i < it.index() ==> reset@.contains_key(*#[trigger] it.seq()[i].0),
                forall|pid: u32| #[trigger]
                    reset@.contains_key(pid) ==> counts.contains_key(pid) && reset@[pid] == 0,
        {
            let (pid_ref, count_ref) = entry;
            let pid = *pid_ref;
            proof {
                assert(entry == it.seq()[it.index()]);
                assert(counts.contains_key(pid) && counts[pid] == *count_ref);
            }
            reset.insert(pid, 0);
        }
        proof {
            assert forall|pid: u32| counts.contains_key(pid) implies reset@.contains_key(pid) by {
                assert(entries.contains((&pid, &counts[pid])));
                let k = choose|i: int| 0 <= i < entries.len() && entries[i] == (&pid, &counts[pid]);
                assert(*entries[k].0 == pid);
            }
            assert(reset@ =~= reset_counts(counts));
        }
        self.event_count_map = reset;
    }

    /// The time series as they are sent to the clients.
    fn convert_map_to_prototype(&self) -> (m: HashMap<u32, TimeSeriesData>)
        requires
            self.wf(),
        ensures
            m@.dom() == self.series().dom(),
            forall|pid: u32| #[trigger] m@.contains_key(pid) ==> m@[pid].list@ == self.series()[pid],
    {
        let mut map: HashMap<u32, TimeSeriesData> = HashMap::new();
        let ghost entries = spec_hash_map_iter(&self.time_series_map).remaining();
        for entry in it: self.time_series_map.iter()
            invariant
                self.wf(),
                entries == it.seq(),
                it.seq() == spec_hash_map_iter(&self.time_series_map).remaining(),
                forall|i: int|
                    0 <= i < it.index() ==> map@.contains_key(*#[trigger] it.seq()[i].0),
                forall|pid: u32| #[trigger]
                    map@.contains_key(pid) ==> self.series().contains_key(pid) && map@[pid].list@
                        == self.series()[pid],
        {
            let (pid_ref, ts) = entry;
            proof {
                assert(entry == it.seq()[it.index()]);
                assert(self.time_series_map@.contains_key(*pid_ref));
                assert(self.time_series_map@[*pid_ref] == *ts);
            }
            map.insert(*pid_ref, TimeSeriesData { list: ts.as_array() });
        }
        proof {
            assert forall|pid: u32| self.series().contains_key(pid) implies map@.contains_key(pid) by {
                let ts = self.time_series_map@[pid];
                assert(entries.contains((&pid, &ts)));
                let k = choose|i: int| 0 <= i < entries.len() && entries[i] == (&pid, &ts);
                assert(*entries[k].0 == pid);
            }
            assert(map@.dom() =~= self.series().dom());
        }
        map
    }
}

/// A log event changes no time series, and a tick keeps every time series
/// at its length and its set of processes only grows.
pub proof fn lemma_tick_keeps_windows(series: Map<u32, Seq<u64>>, counts: Map<u32, u64>)
    requires
        forall|pid: u32| #[trigger] series.contains_key(pid) ==> series[pid].len() == TIMESERIES_LENGTH,
    ensures
        forall|pid: u32| #[trigger]
            tick_series(series, counts).contains_key(pid) ==> tick_series(series, counts)[pid].len()
                == TIMESERIES_LENGTH,
        series.dom().subset_of(tick_series(series, counts).dom()),
        counts.dom().subset_of(tick_series(series, counts).dom()),
{
}

/// An event of a process followed by a tick makes the process's count, one
/// more than before the event, the newest sample of its series; the older
/// samples move back by one, and clearing the counts after the send brings
/// the process back to zero.
pub proof fn lemma_event_then_tick(series: Map<u32, Seq<u64>>, counts: Map<u32, u64>, pid: u32)
    requires
        forall|p: u32| #[trigger] series.contains_key(p) ==> series[p].len() == TIMESERIES_LENGTH,
    ensures
        tick_series(series, count_event(counts, pid)).contains_key(pid),
        tick_series(series, count_event(counts, pid))[pid].last() == next_count(counts, pid),
        tick_series(series, count_event(counts, pid))[pid].drop_last() == (if series.contains_key(pid) {
            series[pid]
        } else {
            zero_window()
        }).drop_first(),
        reset_counts(count_event(counts, pid))[pid] == 0,
{
    let w = if series.contains_key(pid) {
        series[pid]
    } else {
        zero_window()
    };
    let v = count_event(counts, pid)[pid];
    assert(shift_in(w, v).drop_last() =~= w.drop_first());
}

/// Once the counts are cleared after a send, the next event of a process
/// counts as one, whether or not the process was counted before: each
/// timeframe counts its own events.
pub proof fn lemma_count_after_clear(counts: Map<u32, u64>, pid: u32)
    ensures
        next_count(reset_counts(counts), pid) == 1,
        count_event(reset_counts(counts), pid)[pid] == 1,
{
}

/// The counts after `n` events of process `pid`.
pub open spec fn count_events(counts: Map<u32, u64>, pid: u32, n: nat) -> Map<u32, u64>
    decreases n,
{
    if n == 0 {
        counts
    } else {
        count_event(count_events(counts, pid, (n - 1) as nat), pid)
    }
}

/// `n` events of a process raise its count by `n` (from zero for a process
/// not counted yet), as long as that stays within `u64`; other processes'
/// counts do not change.
pub proof fn lemma_count_events(counts: Map<u32, u64>, pid: u32, n: nat)
    requires
        (if counts.dom().contains(pid) { counts[pid] as int } else { 0 }) + n <= u64::MAX,
    ensures
        n >= 1 ==> count_events(counts, pid, n).dom().contains(pid),
        n >= 1 ==> count_events(counts, pid, n)[pid] == (if counts.dom().contains(pid) {
            counts[pid] as int
        } else {
            0
        }) + n,
        forall|p: u32| p != pid ==> (#[trigger] count_events(counts, pid, n).dom().contains(p)
            <==> counts.dom().contains(p)),
        forall|p: u32| p != pid && counts.dom().contains(p) ==> #[trigger] count_events(counts, pid, n)[p] == counts[p],
    decreases n,
{
    if n > 0 {
        lemma_count_events(counts, pid, (n - 1) as nat);
        let m = count_events(counts, pid, (n - 1) as nat);
        assert(count_events(counts, pid, n) == m.insert(pid, next_count(m, pid)));
        if n == 1 {
            assert(m == counts);
        }
    } else {
        assert(count_events(counts, pid, n) == counts);
    }
}

/// The tick after `n >= 1` events of a process in a timeframe whose counts
/// started cleared appends `n` to the process's series: each timeframe's
/// sample is the number of its events.
pub proof fn lemma_timeframe_sample(series: Map<u32, Seq<u64>>, counts: Map<u32, u64>, pid: u32, n: nat)
    requires
        1 <= n <= u64::MAX,
    ensures
        tick_series(series, count_events(reset_counts(counts), pid, n)).contains_key(pid),
        tick_series(series, count_events(reset_counts(counts), pid, n))[pid].last() == n,
{
    lemma_count_events(reset_counts(counts), pid, n);
    let m = count_events(reset_counts(counts), pid, (n - 1) as nat);
    lemma_count_events(reset_counts(counts), pid, (n - 1) as nat);
    assert(count_events(reset_counts(counts), pid, n) == count_event(m, pid));
    let w = if series.contains_key(pid) {
        series[pid]
    } else {
        zero_window()
    };
    assert(tick_series(series, count_event(m, pid))[pid] == shift_in(w, count_event(m, pid)[pid]));
}

} // verus!

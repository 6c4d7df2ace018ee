use ziofa::aggregator::{AggregatorState, TIMESERIES_LENGTH};
use ziofa::events::{
    Event, EventContext, EventData, EventKind, LogEvent, LogEventData, SignalEvent,
};

fn signal_from(pid: u32) -> Event {
    Event {
        event_data: Some(EventData::Log(LogEvent {
            context: Some(EventContext { pid, tid: pid, timestamp: None }),
            log_event_data: Some(LogEventData::Signal(SignalEvent { target_pid: 1, signal: 3 })),
        })),
    }
}

fn tick() -> Event {
    Event { event_data: None }
}

#[test]
fn events_are_counted_then_turned_into_series() {
    let mut state = AggregatorState::new(EventKind::Signal, 1000);
    assert!(state.handle(signal_from(1)).is_none());
    assert!(state.handle(signal_from(1)).is_none());
    assert!(state.handle(signal_from(2)).is_none());
    let out = state.handle(tick()).expect("a tick sends the series");
    assert_eq!(out.event_kind, EventKind::Signal);
    assert_eq!(out.timeframe_ms, 1000);
    assert_eq!(out.time_series_map.len(), 2);
    let one = &out.time_series_map[&1].list;
    assert_eq!(one.len(), TIMESERIES_LENGTH);
    assert_eq!(one[TIMESERIES_LENGTH - 1], 2);
    assert!(one[..TIMESERIES_LENGTH - 1].iter().all(|v| *v == 0));
    assert_eq!(out.time_series_map[&2].list[TIMESERIES_LENGTH - 1], 1);
    state.clear_counts();

    // the next timeframe counts afresh
    assert!(state.handle(signal_from(1)).is_none());
    let out = state.handle(tick()).expect("a tick sends the series");
    let one = &out.time_series_map[&1].list;
    assert_eq!(one[TIMESERIES_LENGTH - 2], 2);
    assert_eq!(one[TIMESERIES_LENGTH - 1], 1);
    assert_eq!(out.time_series_map[&2].list[TIMESERIES_LENGTH - 1], 0);
    state.clear_counts();

    let out = state.handle(tick()).expect("a tick sends the series");
    assert_eq!(out.time_series_map[&1].list[TIMESERIES_LENGTH - 1], 0);
}

#[test]
fn counts_stay_until_cleared() {
    let mut state = AggregatorState::new(EventKind::Signal, 10);
    state.handle(signal_from(3));
    let first = state.handle(tick()).unwrap();
    assert_eq!(first.time_series_map[&3].list[TIMESERIES_LENGTH - 1], 1);
    // a send that failed leaves the counts for the next tick
    let second = state.handle(tick()).unwrap();
    assert_eq!(second.time_series_map[&3].list[TIMESERIES_LENGTH - 1], 1);
    assert_eq!(second.time_series_map[&3].list[TIMESERIES_LENGTH - 2], 1);
}

#[test]
fn tick_without_events_sends_empty_map() {
    let mut state = AggregatorState::new(EventKind::Write, 250);
    let out = state.handle(tick()).unwrap();
    assert!(out.time_series_map.is_empty());
    assert_eq!(out.timeframe_ms, 250);
}

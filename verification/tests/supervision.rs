use ziofa::collector::{CollectorSupervisor, EventDispatcher, RingBufCollector};
use ziofa::supervision::{
    collector_response, stage_response, ChildEvent, CollectorResponse, StageResponse,
};

#[test]
fn failed_collector_is_restarted() {
    let _ = (CollectorSupervisor, EventDispatcher, RingBufCollector);
    assert!(matches!(
        collector_response(ChildEvent::Failed(3, "boom".to_string()), 3),
        CollectorResponse::RestartCollector
    ));
}

#[test]
fn failure_of_another_child_is_fatal() {
    match collector_response(ChildEvent::Failed(4, "boom".to_string()), 3) {
        CollectorResponse::Fatal { actor, reason } => {
            assert_eq!(actor, 4);
            assert_eq!(reason, "boom");
        }
        _ => panic!("expected a fatal failure"),
    }
    assert!(matches!(collector_response(ChildEvent::Terminated(3, None), 3), CollectorResponse::Ignore));
    assert!(matches!(collector_response(ChildEvent::Started(3), 3), CollectorResponse::Ignore));
}

#[test]
fn pipeline_stages_stop_or_drain() {
    match stage_response(ChildEvent::Failed(1, "bad".to_string())) {
        StageResponse::Stop(reason) => assert_eq!(reason, "bad"),
        _ => panic!("expected a stop"),
    }
    assert!(matches!(stage_response(ChildEvent::Terminated(1, Some("done".to_string()))), StageResponse::Drain));
    assert!(matches!(stage_response(ChildEvent::GroupChanged), StageResponse::Ignore));
}

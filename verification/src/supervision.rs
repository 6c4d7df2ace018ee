//! How supervising actors answer what happens to their children.
use vstd::prelude::*;

verus! {

/// What a supervisor hears of a child, the child named by its actor id.
pub enum ChildEvent {
    /// The child started.
    Started(u64),
    /// The child stopped, with the reason it gave, if any.
    Terminated(u64, Option<String>),
    /// The child failed, with the error it failed with.
    Failed(u64, String),
    /// A process group that the supervisor follows changed.
    GroupChanged,
}

/// What a stage of the symbol pipeline does about a child.
pub enum StageResponse {
    /// Stop, giving the child's failure as the reason.
    Stop(String),
    /// Stop taking work and finish what is queued.
    Drain,
    /// Nothing.
    Ignore,
}

/// A stage stops when a child fails and drains when a child ends.
pub open spec fn spec_stage_response(event: ChildEvent) -> StageResponse {
    match event {
        ChildEvent::Failed(_, reason) => StageResponse::Stop(reason),
        ChildEvent::Terminated(_, _) => StageResponse::Drain,
        _ => StageResponse::Ignore,
    }
}

/// What a stage of the symbol pipeline does about `event`.
pub fn stage_response(event: ChildEvent) -> (r: StageResponse)
    ensures
        r == spec_stage_response(event),
{
    match event {
        ChildEvent::Failed(_, reason) => StageResponse::Stop(reason),
        ChildEvent::Terminated(_, _) => StageResponse::Drain,
        _ => StageResponse::Ignore,
    }
}

/// What the collector supervisor does about a child.
pub enum CollectorResponse {
    /// Start a new ring buffer collector in place of the failed one.
    RestartCollector,
    /// Fail itself: a child other than the collector failed.
    Fatal { actor: u64, reason: String },
    /// Nothing.
    Ignore,
}

/// The collector is restarted when it fails; the failure of any other child
/// is fatal; everything else is ignored.
pub open spec fn spec_collector_response(event: ChildEvent, collector: u64) -> CollectorResponse {
    match event {
        ChildEvent::Failed(actor, reason) => if actor == collector {
            CollectorResponse::RestartCollector
        } else {
            CollectorResponse::Fatal { actor, reason }
        },
        _ => CollectorResponse::Ignore,
    }
}

/// What the collector supervisor, whose current collector is `collector`,
/// does about `event`.
pub fn collector_response(event: ChildEvent, collector: u64) -> (r: CollectorResponse)
    ensures
        r == spec_collector_response(event, collector),
{
    match event {
        ChildEvent::Failed(actor, reason) => {
            if actor == collector {
                CollectorResponse::RestartCollector
            } else {
                CollectorResponse::Fatal { actor, reason }
            }
        },
        _ => CollectorResponse::Ignore,
    }
}

} // verus!

//! The actors that carry events from the kernel to the clients.
use vstd::prelude::*;

verus! {

/// The actor that hands each event to every listening client.
pub struct EventDispatcher;

/// The actor that reads the events ring buffer and passes each event on.
pub struct RingBufCollector;

/// The actor that starts the dispatcher and the collector, and restarts the
/// collector when it fails.
pub struct CollectorSupervisor;

} // verus!

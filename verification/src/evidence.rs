//! Evidence event sinks.
use std::sync::Arc;
use vstd::prelude::*;
use crate::uci::EvidenceEvent;

verus! {

/// Evidence event sink shared by dataplane hot paths and ops tooling.
pub trait EvidenceSink: Send + Sync {
    fn emit(&self, event: EvidenceEvent);
}

/// Evidence handle held by each channel: a sink that is cheap to clone.
pub trait EvidenceHandle: EvidenceSink + Clone {}

impl<T: EvidenceSink + Clone> EvidenceHandle for T {}

impl<T: EvidenceSink + ?Sized> EvidenceSink for Arc<T> {
    fn emit(&self, event: EvidenceEvent) {
        (**self).emit(event)
    }
}

/// A sink that drops every event.
#[derive(Debug, Default, Clone, Copy)]
pub struct NoopEvidenceSink;

impl EvidenceSink for NoopEvidenceSink {
    fn emit(&self, event: EvidenceEvent) {
        let _ = event;
    }
}

/// A sink that forwards every event to each of its sinks, in order.
#[derive(Clone)]
pub struct CompositeEvidenceSink {
    sinks: Vec<Arc<dyn EvidenceSink>>,
}

impl CompositeEvidenceSink {
    /// The sinks events are forwarded to, in order.
    pub closed spec fn sinks(&self) -> Seq<Arc<dyn EvidenceSink>> {
        self.sinks@
    }

    pub fn new(sinks: Vec<Arc<dyn EvidenceSink>>) -> (c: Self)
        ensures
            c.sinks() == sinks@,
    {
        CompositeEvidenceSink { sinks }
    }
}

impl EvidenceSink for CompositeEvidenceSink {
    fn emit(&self, event: EvidenceEvent) {
        let mut i: usize = 0;
        while i < self.sinks.len()
            invariant
                i <= self.sinks@.len(),
            decreases self.sinks@.len() - i,
        {
            self.sinks[i].emit(event);
            i = i + 1;
        }
    }
}

} // verus!

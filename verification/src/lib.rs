//! Runtime-neutral transport semantics: framing, outbound buffering with
//! watermarks, a generational slab, dataplane configuration and metrics.
use vstd::prelude::*;

pub mod uci;
pub mod error_codes;
pub mod names;
pub mod evidence;
pub mod io;
pub mod policy;
pub mod metrics;
pub mod slab;
pub mod reactor;
pub mod executor;
pub mod driver;
pub mod framing;
pub mod outbound;
pub mod pipeline;
pub mod config;
pub mod lease;

verus! {

/// Marker trait for assembled applications: anything shareable across
/// threads for the whole program.
pub trait App: Send + Sync + 'static {}

impl<T: Send + Sync + 'static> App for T {}

} // verus!

//! Stable evidence-event names and unit mappings.
use vstd::prelude::*;

verus! {

pub const BACKPRESSURE_ENTER: &'static str = "BackpressureEnter";
pub const BACKPRESSURE_EXIT: &'static str = "BackpressureExit";
pub const DRAINING_ENTER: &'static str = "DrainingEnter";
pub const DRAINING_EXIT: &'static str = "DrainingExit";
pub const DRAINING_TIMEOUT: &'static str = "DrainingTimeout";
pub const FLUSH_LIMITED: &'static str = "FlushLimited";
pub const FRAME_TOO_LARGE: &'static str = "FrameTooLarge";
pub const PEER_HALF_CLOSE: &'static str = "PeerHalfClose";
pub const CLOSE_REQUESTED: &'static str = "CloseRequested";
pub const CLOSE_COMPLETE: &'static str = "CloseComplete";
pub const ABORTIVE_CLOSE: &'static str = "AbortiveClose";

pub const UNITMAP_BACKPRESSURE_BYTES_V1: &'static str = "bp_bytes_v1";
pub const UNITMAP_DRAINING_V1: &'static str = "draining_v1";
pub const UNITMAP_FLUSH_LIMITED_V1: &'static str = "flush_limited_v1";
pub const UNITMAP_FRAME_TOO_LARGE_V1: &'static str = "frame_too_large_v1";
pub const UNITMAP_CLOSE_V1: &'static str = "close_v1";

} // verus!

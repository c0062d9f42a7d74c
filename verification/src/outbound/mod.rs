//! Outbound path: segmented frames and the watermark-driven outbound buffer.
pub mod frame;
pub mod buffer;

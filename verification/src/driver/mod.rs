//! The single-threaded dataplane driver: scheduling kernel and per-channel
//! state machine.
pub mod schedule;
pub mod channel_state;
pub mod kernel;
pub mod read_loop;
pub mod task;
pub mod tick;

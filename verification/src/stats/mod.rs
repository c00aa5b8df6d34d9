//! Counters and replay detection.

pub mod counter_laws;
pub mod counters;
pub mod replay;
pub mod replay_laws;
pub mod replay_window_laws;
pub mod user_counters;
pub mod users;

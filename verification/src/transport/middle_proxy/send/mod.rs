//! Sending to the middle proxies.

pub mod close;

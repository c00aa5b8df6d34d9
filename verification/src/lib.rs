//! Verified core of a relay proxy.

pub mod dash;
pub mod ip_tracker;
pub mod lru_cache;
pub mod proxy;
pub mod stats;
pub mod table;
pub mod text;
pub mod time;
pub mod transport;

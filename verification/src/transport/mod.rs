//! Links to the middle proxies.

pub mod middle_proxy;

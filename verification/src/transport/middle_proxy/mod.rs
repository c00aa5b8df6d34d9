//! Connections through middle proxies.

pub mod registry;
pub mod send;

use vstd::prelude::*;

use registry::ConnRegistry;

verus! {

/// A pool of writers to middle proxies.
pub struct MePool {
    pub registry: ConnRegistry,
    /// Number of open connections to middle proxies.
    pub conn_count: usize,
}

impl MePool {
    /// A pool without open connections, for the connections of a registry.
    pub fn new(registry: ConnRegistry) -> (res: MePool)
        ensures
            res == (MePool { registry, conn_count: 0 }),
    {
        MePool { registry, conn_count: 0 }
    }
}

} // verus!

//! Relaying between clients and middle proxies.

pub mod middle_relay;
pub mod relay;

use vstd::prelude::*;

verus! {

/// Why a relay ended.
#[derive(Debug, PartialEq, Eq)]
pub enum ProxyError {
    Proxy(String),
}

} // verus!

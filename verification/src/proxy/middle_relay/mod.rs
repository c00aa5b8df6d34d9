//! Relaying through a middle proxy.

pub mod c2me;
pub mod desync;
pub mod desync_effect_laws;
pub mod desync_laws;

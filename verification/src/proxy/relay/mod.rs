//! Relaying bytes between a client and its server.

pub mod io;

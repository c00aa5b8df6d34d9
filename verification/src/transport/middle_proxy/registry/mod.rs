//! Which connection goes through which writer.
//!
//! Channels and byte budgets belong to the holder of the registry. The registry knows them by numbers.

pub mod effect_laws;
pub mod laws;
pub mod route;
pub mod writer;

use std::collections::{HashMap, HashSet};

use dashmap::DashMap;
use vstd::prelude::*;

use crate::dash::{bindings_new, slots_new};

verus! {

broadcast use vstd::std_specs::hash::group_hash_axioms;

/// What a connection was opened for.
#[derive(Debug, Clone, Copy, PartialEq, Eq, Structural)]
pub struct ConnMeta {
    /// Data centre that the client wants to reach; zero stands for none.
    pub target_dc: i16,
    /// Number under which the holder keeps the rest of what it knows of the connection.
    pub details: u64,
}

/// The writer of a connection, for quick lookups.
#[derive(Debug, Clone, Copy, PartialEq, Eq, Structural)]
pub struct HotConnBinding {
    pub writer_id: u64,
    pub meta: ConnMeta,
}

/// A connection that has lost its writer.
#[derive(Debug, Clone, Copy, PartialEq, Eq, Structural)]
pub struct BoundConn {
    pub conn_id: u64,
    pub meta: ConnMeta,
}

/// A writer and the channel that leads to it.
#[derive(Debug, Clone, Copy, PartialEq, Eq, Structural)]
pub struct ConnWriter {
    pub writer_id: u64,
    pub tx: u64,
}

/// How busy the writers and the data centres are.
pub struct WriterActivitySnapshot {
    /// Number of connections bound to each writer.
    pub bound_clients_by_writer: HashMap<u64, usize>,
    /// Number of connections that want to reach each data centre.
    pub active_sessions_by_target_dc: HashMap<i16, usize>,
}

/// How long a response may wait for its connection.
#[derive(Debug, Clone, Copy, PartialEq, Eq, Structural)]
pub struct RouteBackpressure {
    /// Number of responses that the channel of a connection holds.
    pub channel_capacity: usize,
    pub base_timeout_ms: u64,
    pub high_timeout_ms: u64,
    /// Share of the channel, in percent, from which it counts as highly used.
    pub high_watermark_pct: u8,
}

/// What a [`ConnRegistry`] knows.
#[verifier::ext_equal]
pub struct RegistryState {
    /// Channel of each connection.
    pub routes: Map<u64, u64>,
    /// Byte budget of each connection.
    pub budgets: Map<u64, u64>,
    /// Writer and purpose of each bound connection, for quick lookups.
    pub hot: Map<u64, HotConnBinding>,
    /// Channel of each writer, for quick lookups.
    pub channels: Map<u64, u64>,
    /// Channel of each writer.
    pub writers: Map<u64, u64>,
    /// Writer of each bound connection.
    pub writer_of: Map<u64, u64>,
    /// Connections of each writer.
    pub conns: Map<u64, Set<u64>>,
    /// Purpose of each connection.
    pub meta: Map<u64, ConnMeta>,
    /// Purpose of the connection that was bound last to each writer.
    pub last_meta: Map<u64, ConnMeta>,
    /// Since when each idle writer has been idle, in calendar seconds.
    pub idle_since: Map<u64, u64>,
    pub backpressure: RouteBackpressure,
}

/// Keeps the connections, the writers and their bindings.
pub struct ConnRegistry {
    routing: DashMap<u64, u64>,
    byte_budget: DashMap<u64, u64>,
    hot_binding: DashMap<u64, HotConnBinding>,
    writers: DashMap<u64, u64>,
    bound_writers: HashMap<u64, u64>,
    writer_for_conn: HashMap<u64, u64>,
    conns_for_writer: HashMap<u64, HashSet<u64>>,
    meta: HashMap<u64, ConnMeta>,
    last_meta_for_writer: HashMap<u64, ConnMeta>,
    writer_idle_since_epoch_secs: HashMap<u64, u64>,
    backpressure: RouteBackpressure,
}

/// The connections of each writer as sets.
pub open spec fn sets_of(table: Map<u64, HashSet<u64>>) -> Map<u64, Set<u64>> {
    table.map_values(|conns: HashSet<u64>| conns@)
}

impl View for ConnRegistry {
    type V = RegistryState;

    closed spec fn view(&self) -> RegistryState {
        RegistryState {
            routes: crate::dash::slots_of(self.routing),
            budgets: crate::dash::slots_of(self.byte_budget),
            hot: crate::dash::bindings_of(self.hot_binding),
            channels: crate::dash::slots_of(self.writers),
            writers: self.bound_writers@,
            writer_of: self.writer_for_conn@,
            conns: sets_of(self.conns_for_writer@),
            meta: self.meta@,
            last_meta: self.last_meta_for_writer@,
            idle_since: self.writer_idle_since_epoch_secs@,
            backpressure: self.backpressure,
        }
    }
}

/// A registry without connections and writers.
pub open spec fn empty_registry(backpressure: RouteBackpressure) -> RegistryState {
    RegistryState {
        routes: Map::empty(),
        budgets: Map::empty(),
        hot: Map::empty(),
        channels: Map::empty(),
        writers: Map::empty(),
        writer_of: Map::empty(),
        conns: Map::empty(),
        meta: Map::empty(),
        last_meta: Map::empty(),
        idle_since: Map::empty(),
        backpressure,
    }
}

impl RegistryState {
    /// State after `id` became known with its channel and byte budget.
    pub open spec fn register_route(self, id: u64, channel: u64, budget: u64) -> RegistryState {
        RegistryState {
            routes: self.routes.insert(id, channel),
            budgets: self.budgets.insert(id, budget),
            ..self
        }
    }

    /// The connections of a writer, none for an unknown one.
    pub open spec fn conns_or_none(self, writer_id: u64) -> Set<u64> {
        if self.conns.contains_key(writer_id) {
            self.conns[writer_id]
        } else {
            Set::empty()
        }
    }

    /// State after a writer became known with its channel.
    pub open spec fn register_writer(self, writer_id: u64, channel: u64) -> RegistryState {
        RegistryState {
            writers: self.writers.insert(writer_id, channel),
            channels: self.channels.insert(writer_id, channel),
            conns: self.conns.insert(writer_id, self.conns_or_none(writer_id)),
            ..self
        }
    }

    /// State after a known writer gave up a connection; one that is left without any is idle from
    /// `now` on.
    pub open spec fn released(self, conn_id: u64, writer_id: u64, now: u64) -> RegistryState {
        if self.conns.contains_key(writer_id) {
            let rest = self.conns[writer_id].remove(conn_id);
            RegistryState {
                conns: self.conns.insert(writer_id, rest),
                idle_since: if rest.is_empty() {
                    self.idle_since.insert(writer_id, now)
                } else {
                    self.idle_since
                },
                ..self
            }
        } else {
            self
        }
    }

    /// State after a connection was forgotten.
    pub open spec fn unregister(self, id: u64, now: u64) -> RegistryState {
        let forgotten = RegistryState {
            routes: self.routes.remove(id),
            budgets: self.budgets.remove(id),
            hot: self.hot.remove(id),
            meta: self.meta.remove(id),
            writer_of: self.writer_of.remove(id),
            ..self
        };
        if self.writer_of.contains_key(id) {
            forgotten.released(id, self.writer_of[id], now)
        } else {
            forgotten
        }
    }

    /// Whether a connection may be bound to a writer: both are known.
    pub open spec fn bindable(self, conn_id: u64, writer_id: u64) -> bool {
        self.routes.contains_key(conn_id) && self.writers.contains_key(writer_id)
    }

    /// State after a connection was bound to a writer, instead of another one where it had one.
    pub open spec fn bind_writer(
        self,
        conn_id: u64,
        writer_id: u64,
        meta: ConnMeta,
        now: u64,
    ) -> RegistryState {
        let moved = if self.writer_of.contains_key(conn_id) && self.writer_of[conn_id]
            != writer_id {
            self.released(conn_id, self.writer_of[conn_id], now)
        } else {
            self
        };
        RegistryState {
            writer_of: moved.writer_of.insert(conn_id, writer_id),
            meta: moved.meta.insert(conn_id, meta),
            last_meta: moved.last_meta.insert(writer_id, meta),
            idle_since: moved.idle_since.remove(writer_id),
            conns: moved.conns.insert(writer_id, moved.conns_or_none(writer_id).insert(conn_id)),
            hot: moved.hot.insert(conn_id, HotConnBinding { writer_id, meta }),
            ..moved
        }
    }

    /// State after a writer was marked as idle; an earlier mark stays.
    pub open spec fn mark_writer_idle(self, writer_id: u64, now: u64) -> RegistryState {
        RegistryState {
            conns: self.conns.insert(writer_id, self.conns_or_none(writer_id)),
            idle_since: if self.idle_since.contains_key(writer_id) {
                self.idle_since
            } else {
                self.idle_since.insert(writer_id, now)
            },
            ..self
        }
    }

    /// The connections that lose their writer when it goes.
    pub open spec fn losing(self, writer_id: u64) -> Set<u64> {
        self.conns_or_none(writer_id).filter(
            |conn_id: u64|
                self.writer_of.contains_key(conn_id) && self.writer_of[conn_id] == writer_id,
        )
    }

    /// State without a writer.
    pub open spec fn without_writer(self, writer_id: u64) -> RegistryState {
        RegistryState {
            writers: self.writers.remove(writer_id),
            channels: self.channels.remove(writer_id),
            last_meta: self.last_meta.remove(writer_id),
            idle_since: self.idle_since.remove(writer_id),
            conns: self.conns.remove(writer_id),
            ..self
        }
    }

    /// State after a writer was lost.
    pub open spec fn writer_lost(self, writer_id: u64) -> RegistryState {
        let losing = self.losing(writer_id);
        RegistryState {
            writer_of: self.writer_of.remove_keys(losing),
            hot: self.hot.remove_keys(
                losing.filter(
                    |conn_id: u64|
                        self.hot.contains_key(conn_id) && self.hot[conn_id].writer_id == writer_id,
                ),
            ),
            ..self.without_writer(writer_id)
        }
    }

    /// The writer of a connection, with its channel.
    pub open spec fn writer(self, conn_id: u64) -> Option<ConnWriter> {
        if self.routes.contains_key(conn_id) && self.hot.contains_key(conn_id)
            && self.channels.contains_key(self.hot[conn_id].writer_id) {
            let writer_id = self.hot[conn_id].writer_id;
            Some(ConnWriter { writer_id, tx: self.channels[writer_id] })
        } else {
            None
        }
    }

    /// The writer of a connection, with its channel, and the purpose of the connection.
    pub open spec fn writer_with_meta(self, conn_id: u64) -> Option<(ConnWriter, ConnMeta)> {
        match self.writer(conn_id) {
            Some(writer) => Some((writer, self.hot[conn_id].meta)),
            None => None,
        }
    }

    /// Purpose of a bound connection.
    pub open spec fn bound_meta(self, conn_id: u64) -> Option<ConnMeta> {
        match self.hot.get(conn_id) {
            Some(hot) => Some(hot.meta),
            None => None,
        }
    }

    /// Whether a writer has connections.
    pub open spec fn busy(self, writer_id: u64) -> bool {
        !self.conns_or_none(writer_id).is_empty()
    }

    /// State after a writer was forgotten, if it is known and has no connections.
    pub open spec fn without_idle_writer(self, writer_id: u64) -> RegistryState {
        if !self.busy(writer_id) && self.conns.contains_key(writer_id) {
            self.without_writer(writer_id)
        } else {
            self
        }
    }

    /// The connections that want to reach a data centre.
    pub open spec fn sessions_to(self, target_dc: i16) -> Set<u64> {
        self.meta.dom().filter(|conn_id: u64| self.meta[conn_id].target_dc == target_dc)
    }
}

impl ConnRegistry {
    /// A registry without connections and writers.
    pub fn new(backpressure: RouteBackpressure) -> (res: ConnRegistry)
        ensures
            res@ == empty_registry(backpressure),
    {
        let res = ConnRegistry {
            routing: slots_new(),
            byte_budget: slots_new(),
            hot_binding: bindings_new(),
            writers: slots_new(),
            bound_writers: HashMap::new(),
            writer_for_conn: HashMap::new(),
            conns_for_writer: HashMap::new(),
            meta: HashMap::new(),
            last_meta_for_writer: HashMap::new(),
            writer_idle_since_epoch_secs: HashMap::new(),
            backpressure,
        };
        assert(res@ =~= empty_registry(backpressure));
        res
    }

    /// Changes the settings. Responses on their way are subject to them from now on.
    pub fn set_backpressure(&mut self, backpressure: RouteBackpressure)
        ensures
            final(self)@ == (RegistryState { backpressure, ..old(self)@ }),
    {
        self.backpressure = backpressure;
    }
}

} // verus!

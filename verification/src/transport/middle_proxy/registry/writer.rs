//! Binding connections to writers.

use std::collections::{HashMap, HashSet};

use vstd::prelude::*;

use super::{
    BoundConn, ConnMeta, ConnRegistry, ConnWriter, HotConnBinding, WriterActivitySnapshot,
};
use crate::dash::{
    bindings_get, bindings_insert, bindings_remove, slots_contains, slots_get, slots_insert,
    slots_remove,
};
use crate::time::now_epoch_secs;

verus! {

broadcast use vstd::std_specs::hash::group_hash_axioms;

/// One more identifier of a list adds it to the set of those before.
proof fn lemma_one_more(ids: Seq<u64>, i: int)
    requires
        0 <= i < ids.len(),
    ensures
        ids.take(i + 1).to_set() == ids.take(i).to_set().insert(ids[i]),
        forall|id: u64| #[trigger]
            ids.take(i + 1).contains(id) == (ids.take(i).contains(id) || id == ids[i]),
{
    let seen = ids.take(i);
    let more = ids.take(i + 1);
    assert(more =~= seen.push(ids[i]));
    seen.lemma_push_to_set_commute(ids[i]);
    assert forall|id: u64| #[trigger] more.contains(id) == (seen.contains(id) || id == ids[i]) by {
        assert(more.to_set().contains(id) == seen.to_set().insert(ids[i]).contains(id));
    }
}

/// Those of the listed connections that want to reach a data centre.
spec fn reaching(meta: Map<u64, ConnMeta>, ids: Seq<u64>, target_dc: i16) -> Set<u64> {
    Set::new(|id: u64| ids.contains(id) && meta[id].target_dc == target_dc)
}

proof fn lemma_reaching_push(meta: Map<u64, ConnMeta>, ids: Seq<u64>, id: u64, target_dc: i16)
    requires
        !ids.contains(id),
    ensures
        reaching(meta, ids.push(id), target_dc) == (if meta[id].target_dc == target_dc {
            reaching(meta, ids, target_dc).insert(id)
        } else {
            reaching(meta, ids, target_dc)
        }),
        !reaching(meta, ids, target_dc).contains(id),
{
    let more = ids.push(id);
    assert forall|other: u64| more.contains(other) == (ids.contains(other) || other == id) by {
        if ids.contains(other) {
            let at = choose|at: int| 0 <= at < ids.len() && ids[at] == other;
            assert(more[at] == other);
        }
        assert(more[ids.len() as int] == id);
    }
    assert(reaching(meta, more, target_dc) =~= (if meta[id].target_dc == target_dc {
        reaching(meta, ids, target_dc).insert(id)
    } else {
        reaching(meta, ids, target_dc)
    }));
}

/// The members of a set, each once, in no particular order.
fn set_to_vec(set: &HashSet<u64>) -> (res: Vec<u64>)
    ensures
        res@.no_duplicates(),
        res@.to_set() == set@,
        res@.len() == set@.len(),
{
    let mut out: Vec<u64> = Vec::new();
    let ghost members = set@;
    for member in ids: set.iter()
        invariant
            out@ == ids.seq().unref().take(ids.index() as int),
            ids.seq().unref().to_set() == members,
            ids.seq().no_duplicates(),
            ids.seq().len() == members.len(),
            ids.index() == ids.seq().len() ==> out@ == ids.seq().unref() && out@.to_set() == members,
    {
        out.push(*member);
        assert(ids.index() + 1 == ids.seq().len() ==> out@ =~= ids.seq().unref());
    }
    out
}

/// The keys of a map, each once, in no particular order.
fn keys_to_vec<V>(table: &HashMap<u64, V>) -> (res: Vec<u64>)
    ensures
        res@.no_duplicates(),
        res@.to_set() == table@.dom(),
        res@.len() == table@.len(),
{
    let mut out: Vec<u64> = Vec::new();
    let ghost keys = table@.dom();
    for key in ids: table.keys()
        invariant
            out@ == ids.seq().unref().take(ids.index() as int),
            ids.seq().unref().to_set() == keys,
            ids.seq().no_duplicates(),
            ids.seq().len() == keys.len(),
            ids.index() == ids.seq().len() ==> out@ == ids.seq().unref() && out@.to_set() == keys,
    {
        out.push(*key);
        assert(ids.index() + 1 == ids.seq().len() ==> out@ =~= ids.seq().unref());
    }
    out
}

impl ConnRegistry {
    /// Makes a connection known, with its channel and its byte budget.
    pub fn register_route(&mut self, id: u64, channel: u64, budget: u64)
        ensures
            final(self)@ == old(self)@.register_route(id, channel, budget),
    {
        let _ = slots_insert(&mut self.routing, id, channel);
        let _ = slots_insert(&mut self.byte_budget, id, budget);
    }

    /// Makes sure that a writer has a list of connections.
    fn ensure_conns(&mut self, writer_id: u64)
        ensures
            final(self)@ == (super::RegistryState {
                conns: old(self)@.conns.insert(writer_id, old(self)@.conns_or_none(writer_id)),
                ..old(self)@
            }),
    {
        if !self.conns_for_writer.contains_key(&writer_id) {
            self.conns_for_writer.insert(writer_id, HashSet::new());
        }
        assert(self@.conns =~= old(self)@.conns.insert(
            writer_id,
            old(self)@.conns_or_none(writer_id),
        ));
    }

    /// Makes a writer known, with the channel that leads to it.
    pub fn register_writer(&mut self, writer_id: u64, tx: u64)
        ensures
            final(self)@ == old(self)@.register_writer(writer_id, tx),
    {
        self.bound_writers.insert(writer_id, tx);
        self.ensure_conns(writer_id);
        let _ = slots_insert(&mut self.writers, writer_id, tx);
    }

    /// Takes a connection from a writer.
    fn release(&mut self, conn_id: u64, writer_id: u64, now: u64)
        ensures
            final(self)@ == old(self)@.released(conn_id, writer_id, now),
    {
        let became_empty = match self.conns_for_writer.remove(&writer_id) {
            Some(mut conns) => {
                conns.remove(&conn_id);
                let empty = conns.is_empty();
                self.conns_for_writer.insert(writer_id, conns);
                empty
            },
            None => false,
        };
        if became_empty {
            self.writer_idle_since_epoch_secs.insert(writer_id, now);
        }
        assert(self@.conns =~= old(self)@.released(conn_id, writer_id, now).conns);
    }

    /// Forgets a connection at `now`. Returns its writer, if it had one.
    pub fn unregister_at(&mut self, id: u64, now: u64) -> (res: Option<u64>)
        ensures
            res == old(self)@.writer_of.get(id),
            final(self)@ == old(self)@.unregister(id, now),
    {
        let _ = slots_remove(&mut self.routing, id);
        let _ = slots_remove(&mut self.byte_budget, id);
        let _ = bindings_remove(&mut self.hot_binding, id);
        self.meta.remove(&id);
        match self.writer_for_conn.remove(&id) {
            Some(writer_id) => {
                self.release(id, writer_id, now);
                Some(writer_id)
            },
            None => {
                assert(self@.writer_of =~= old(self)@.writer_of);
                None
            },
        }
    }

    /// Forgets a connection. Returns its writer, if it had one.
    pub fn unregister(&mut self, id: u64) -> (res: Option<u64>)
        ensures
            res == old(self)@.writer_of.get(id),
            exists|now: u64| final(self)@ == #[trigger] old(self)@.unregister(id, now),
    {
        self.unregister_at(id, now_epoch_secs())
    }

    /// Binds a connection to a writer at `now`, if both are known.
    pub fn bind_writer_at(
        &mut self,
        conn_id: u64,
        writer_id: u64,
        meta: ConnMeta,
        now: u64,
    ) -> (bound: bool)
        ensures
            bound == old(self)@.bindable(conn_id, writer_id),
            final(self)@ == (if bound {
                old(self)@.bind_writer(conn_id, writer_id, meta, now)
            } else {
                old(self)@
            }),
    {
        if !slots_contains(&self.routing, conn_id) {
            return false;
        }
        if !self.bound_writers.contains_key(&writer_id) {
            return false;
        }
        let previous = self.writer_for_conn.insert(conn_id, writer_id);
        if let Some(previous_writer_id) = previous {
            if previous_writer_id != writer_id {
                self.release(conn_id, previous_writer_id, now);
            }
        }
        self.meta.insert(conn_id, meta);
        self.last_meta_for_writer.insert(writer_id, meta);
        self.writer_idle_since_epoch_secs.remove(&writer_id);
        let mut conns = match self.conns_for_writer.remove(&writer_id) {
            Some(conns) => conns,
            None => HashSet::new(),
        };
        conns.insert(conn_id);
        self.conns_for_writer.insert(writer_id, conns);
        let _ = bindings_insert(&mut self.hot_binding, conn_id, HotConnBinding { writer_id, meta });
        assert(self@.conns =~= old(self)@.bind_writer(conn_id, writer_id, meta, now).conns);
        true
    }

    /// Binds a connection to a writer, if both are known.
    pub fn bind_writer(&mut self, conn_id: u64, writer_id: u64, meta: ConnMeta) -> (bound: bool)
        ensures
            bound == old(self)@.bindable(conn_id, writer_id),
            !bound ==> final(self)@ == old(self)@,
            bound ==> exists|now: u64|
                final(self)@ == #[trigger] old(self)@.bind_writer(conn_id, writer_id, meta, now),
    {
        self.bind_writer_at(conn_id, writer_id, meta, now_epoch_secs())
    }

    /// Marks a writer as idle from `now` on, unless it is marked already.
    pub fn mark_writer_idle_at(&mut self, writer_id: u64, now: u64)
        ensures
            final(self)@ == old(self)@.mark_writer_idle(writer_id, now),
    {
        self.ensure_conns(writer_id);
        if !self.writer_idle_since_epoch_secs.contains_key(&writer_id) {
            self.writer_idle_since_epoch_secs.insert(writer_id, now);
        }
    }

    /// Marks a writer as idle, unless it is marked already.
    pub fn mark_writer_idle(&mut self, writer_id: u64)
        ensures
            exists|now: u64| final(self)@ == #[trigger] old(self)@.mark_writer_idle(writer_id, now),
    {
        self.mark_writer_idle_at(writer_id, now_epoch_secs())
    }

    /// Purpose of the connection that was bound last to a writer.
    pub fn get_last_writer_meta(&self, writer_id: u64) -> (res: Option<ConnMeta>)
        ensures
            res == self@.last_meta.get(writer_id),
    {
        match self.last_meta_for_writer.get(&writer_id) {
            Some(meta) => Some(*meta),
            None => None,
        }
    }

    /// Since when each idle writer has been idle.
    pub fn writer_idle_since_snapshot(&self) -> (res: HashMap<u64, u64>)
        ensures
            res@ == self@.idle_since,
    {
        self.writer_idle_since_epoch_secs.clone()
    }

    /// Since when those of the given writers that are idle have been idle.
    pub fn writer_idle_since_for_writer_ids(&self, writer_ids: &[u64]) -> (res: HashMap<u64, u64>)
        ensures
            res@ == self@.idle_since.restrict(writer_ids@.to_set()),
    {
        let mut out: HashMap<u64, u64> = HashMap::with_capacity(writer_ids.len());
        let mut i: usize = 0;
        while i < writer_ids.len()
            invariant
                i <= writer_ids@.len(),
                out@ == self@.idle_since.restrict(writer_ids@.take(i as int).to_set()),
            decreases writer_ids@.len() - i,
        {
            let writer_id: u64 = writer_ids[i];
            if let Some(since) = self.writer_idle_since_epoch_secs.get(&writer_id) {
                out.insert(writer_id, *since);
            }
            proof {
                let more = writer_ids@.take(i + 1);
                lemma_one_more(writer_ids@, i as int);
                assert(out@ =~= self@.idle_since.restrict(more.to_set()));
            }
            i = i + 1;
        }
        assert(writer_ids@.take(i as int) =~= writer_ids@);
        out
    }

    /// The writer of a connection.
    pub fn get_writer(&self, conn_id: u64) -> (res: Option<ConnWriter>)
        ensures
            res == self@.writer(conn_id),
    {
        if !slots_contains(&self.routing, conn_id) {
            return None;
        }
        let writer_id: u64 = match bindings_get(&self.hot_binding, conn_id) {
            Some(hot) => hot.writer_id,
            None => {
                return None;
            },
        };
        match slots_get(&self.writers, writer_id) {
            Some(tx) => Some(ConnWriter { writer_id, tx }),
            None => None,
        }
    }

    /// The writer and the purpose of a connection.
    pub fn get_writer_with_meta(&self, conn_id: u64) -> (res: Option<(ConnWriter, ConnMeta)>)
        ensures
            res == (match self@.writer(conn_id) {
                Some(writer) => Some((writer, self@.hot[conn_id].meta)),
                None => None,
            }),
            res == self@.writer_with_meta(conn_id),
    {
        if !slots_contains(&self.routing, conn_id) {
            return None;
        }
        let hot = match bindings_get(&self.hot_binding, conn_id) {
            Some(hot) => hot,
            None => {
                return None;
            },
        };
        match slots_get(&self.writers, hot.writer_id) {
            Some(tx) => Some((ConnWriter { writer_id: hot.writer_id, tx }, hot.meta)),
            None => None,
        }
    }

    /// Purpose of a bound connection.
    pub fn get_meta(&self, conn_id: u64) -> (res: Option<ConnMeta>)
        ensures
            res == (match self@.hot.get(conn_id) {
                Some(hot) => Some(hot.meta),
                None => None,
            }),
            res == self@.bound_meta(conn_id),
    {
        match bindings_get(&self.hot_binding, conn_id) {
            Some(hot) => Some(hot.meta),
            None => None,
        }
    }

    /// Whether a writer has no connections; an unknown writer has none.
    pub fn is_writer_empty(&self, writer_id: u64) -> (res: bool)
        ensures
            res == self@.conns_or_none(writer_id).is_empty(),
            res == !self@.busy(writer_id),
    {
        match self.conns_for_writer.get(&writer_id) {
            Some(conns) => conns.is_empty(),
            None => true,
        }
    }

    /// Forgets a writer that has no connections. Returns whether the writer is gone.
    pub fn unregister_writer_if_empty(&mut self, writer_id: u64) -> (gone: bool)
        ensures
            gone == old(self)@.conns_or_none(writer_id).is_empty(),
            final(self)@ == (if gone && old(self)@.conns.contains_key(writer_id) {
                old(self)@.without_writer(writer_id)
            } else {
                old(self)@
            }),
            gone == !old(self)@.busy(writer_id),
            final(self)@ == old(self)@.without_idle_writer(writer_id),
    {
        match self.conns_for_writer.get(&writer_id) {
            None => {
                return true;
            },
            Some(conns) => {
                if !conns.is_empty() {
                    return false;
                }
            },
        }
        self.bound_writers.remove(&writer_id);
        let _ = slots_remove(&mut self.writers, writer_id);
        self.last_meta_for_writer.remove(&writer_id);
        self.writer_idle_since_epoch_secs.remove(&writer_id);
        self.conns_for_writer.remove(&writer_id);
        assert(self@.conns =~= old(self)@.conns.remove(writer_id));
        true
    }

    /// The given writers that have connections.
    pub fn non_empty_writer_ids(&self, writer_ids: &[u64]) -> (res: HashSet<u64>)
        ensures
            res@ == writer_ids@.to_set().filter(
                |writer_id: u64| !self@.conns_or_none(writer_id).is_empty(),
            ),
            forall|writer_id: u64| #[trigger]
                res@.contains(writer_id) <==> writer_ids@.contains(writer_id) && self@.busy(
                    writer_id,
                ),
    {
        let ghost busy = |writer_id: u64| !self@.conns_or_none(writer_id).is_empty();
        let mut out: HashSet<u64> = HashSet::with_capacity(writer_ids.len());
        let mut i: usize = 0;
        while i < writer_ids.len()
            invariant
                i <= writer_ids@.len(),
                busy == (|writer_id: u64| !self@.conns_or_none(writer_id).is_empty()),
                out@ == writer_ids@.take(i as int).to_set().filter(busy),
            decreases writer_ids@.len() - i,
        {
            let writer_id: u64 = writer_ids[i];
            if let Some(conns) = self.conns_for_writer.get(&writer_id) {
                if !conns.is_empty() {
                    out.insert(writer_id);
                }
            }
            proof {
                let more = writer_ids@.take(i + 1);
                lemma_one_more(writer_ids@, i as int);
                assert(out@ =~= more.to_set().filter(busy));
            }
            i = i + 1;
        }
        assert(writer_ids@.take(i as int) =~= writer_ids@);
        out
    }

    /// The bound connections, each once, in no particular order.
    pub fn active_conn_ids(&self) -> (res: Vec<u64>)
        ensures
            res@.no_duplicates(),
            res@.to_set() == self@.writer_of.dom(),
            res@.len() == self@.writer_of.len(),
    {
        keys_to_vec(&self.writer_for_conn)
    }

    /// Forgets a writer. Returns the connections that lose it and whose purpose is known, each once, in
    /// no particular order.
    pub fn writer_lost(&mut self, writer_id: u64) -> (res: Vec<BoundConn>)
        ensures
            final(self)@ == old(self)@.writer_lost(writer_id),
            forall|i: int|
                0 <= i < res@.len() ==> old(self)@.losing(writer_id).contains(
                    (#[trigger] res@[i]).conn_id,
                ) && old(self)@.meta.get(res@[i].conn_id) == Some(res@[i].meta),
            forall|conn_id: u64| #[trigger]
                old(self)@.losing(writer_id).contains(conn_id) && old(self)@.meta.contains_key(conn_id)
                    ==> exists|i: int| 0 <= i < res@.len() && (#[trigger] res@[i]).conn_id == conn_id,
            forall|i: int, j: int|
                0 <= i < j < res@.len() ==> (#[trigger] res@[i]).conn_id != (
                #[trigger] res@[j]).conn_id,
    {
        self.bound_writers.remove(&writer_id);
        let _ = slots_remove(&mut self.writers, writer_id);
        self.last_meta_for_writer.remove(&writer_id);
        self.writer_idle_since_epoch_secs.remove(&writer_id);
        let conns: Vec<u64> = match self.conns_for_writer.remove(&writer_id) {
            Some(conns) => set_to_vec(&conns),
            None => Vec::new(),
        };
        let ghost all = old(self)@.conns_or_none(writer_id);
        let ghost losing = old(self)@.losing(writer_id);
        let ghost hot_losing = losing.filter(
            |conn_id: u64|
                old(self)@.hot.contains_key(conn_id) && old(self)@.hot[conn_id].writer_id
                    == writer_id,
        );
        assert(conns@.to_set() =~= all);
        assert(self@.conns =~= old(self)@.conns.remove(writer_id));
        let mut out: Vec<BoundConn> = Vec::new();
        let mut i: usize = 0;
        assert(conns@.take(0).to_set() =~= Set::<u64>::empty());
        assert(self@.writer_of =~= old(self)@.writer_of.remove_keys(
            losing.intersect(conns@.take(0).to_set()),
        ));
        assert(self@.hot =~= old(self)@.hot.remove_keys(
            hot_losing.intersect(conns@.take(0).to_set()),
        ));
        while i < conns.len()
            invariant
                i <= conns@.len(),
                conns@.no_duplicates(),
                conns@.to_set() == all,
                all == old(self)@.conns_or_none(writer_id),
                losing == old(self)@.losing(writer_id),
                hot_losing == losing.filter(
                    |conn_id: u64|
                        old(self)@.hot.contains_key(conn_id) && old(self)@.hot[conn_id].writer_id
                            == writer_id,
                ),
                self@ == (super::RegistryState {
                    writer_of: old(self)@.writer_of.remove_keys(
                        losing.intersect(conns@.take(i as int).to_set()),
                    ),
                    hot: old(self)@.hot.remove_keys(
                        hot_losing.intersect(conns@.take(i as int).to_set()),
                    ),
                    ..old(self)@.without_writer(writer_id)
                }),
                forall|k: int|
                    0 <= k < out@.len() ==> losing.contains((#[trigger] out@[k]).conn_id)
                        && conns@.take(i as int).contains(out@[k].conn_id) && old(self)@.meta.get(
                        out@[k].conn_id,
                    ) == Some(out@[k].meta),
                forall|k: int|
                    0 <= k < i && losing.contains(#[trigger] conns@[k]) && old(
                        self,
                    )@.meta.contains_key(conns@[k]) ==> exists|m: int|
                        0 <= m < out@.len() && (#[trigger] out@[m]).conn_id == conns@[k],
                forall|k: int, m: int|
                    0 <= k < m < out@.len() ==> (#[trigger] out@[k]).conn_id != (
                    #[trigger] out@[m]).conn_id,
            decreases conns@.len() - i,
        {
            let conn_id: u64 = conns[i];
            let ghost seen = conns@.take(i as int);
            let ghost more = conns@.take(i + 1);
            let ghost before = out@;
            proof {
                lemma_one_more(conns@, i as int);
                assert(!seen.contains(conn_id));
                assert(all.contains(conn_id));
            }
            let ours = match self.writer_for_conn.get(&conn_id) {
                Some(id) => *id == writer_id,
                None => false,
            };
            assert(ours == losing.contains(conn_id));
            if ours {
                self.writer_for_conn.remove(&conn_id);
                let remove_hot = match bindings_get(&self.hot_binding, conn_id) {
                    Some(hot) => hot.writer_id == writer_id,
                    None => false,
                };
                assert(remove_hot == hot_losing.contains(conn_id));
                if remove_hot {
                    let _ = bindings_remove(&mut self.hot_binding, conn_id);
                }
                if let Some(meta) = self.meta.get(&conn_id) {
                    out.push(BoundConn { conn_id, meta: *meta });
                }
            }
            assert(self@.writer_of =~= old(self)@.writer_of.remove_keys(
                losing.intersect(more.to_set()),
            ));
            assert(self@.hot =~= old(self)@.hot.remove_keys(
                hot_losing.intersect(more.to_set()),
            ));
            proof {
                assert forall|k: int|
                    0 <= k < i + 1 && losing.contains(#[trigger] conns@[k]) && old(
                        self,
                    )@.meta.contains_key(conns@[k]) implies exists|m: int|
                    0 <= m < out@.len() && (#[trigger] out@[m]).conn_id == conns@[k] by {
                    if k < i {
                        let m = choose|m: int|
                            0 <= m < before.len() && (#[trigger] before[m]).conn_id == conns@[k];
                        assert(out@[m].conn_id == conns@[k]);
                    } else {
                        assert(out@[before.len() as int].conn_id == conn_id);
                    }
                }
            }
            i = i + 1;
        }
        proof {
            assert(conns@.take(i as int) =~= conns@);
            assert(losing.intersect(all) =~= losing);
            assert(hot_losing.intersect(all) =~= hot_losing);
            assert forall|conn_id: u64| #[trigger]
                losing.contains(conn_id) && old(self)@.meta.contains_key(
                    conn_id,
                ) implies exists|m: int|
                0 <= m < out@.len() && (#[trigger] out@[m]).conn_id == conn_id by {
                assert(conns@.contains(conn_id));
                let k = choose|k: int| 0 <= k < conns@.len() && conns@[k] == conn_id;
                assert(losing.contains(conns@[k]));
            }
        }
        out
    }

    /// Number of connections bound to each writer.
    fn bound_clients(&self) -> (res: HashMap<u64, usize>)
        ensures
            res@.dom() == self@.conns.dom(),
            forall|writer_id: u64| #[trigger]
                self@.conns.contains_key(writer_id) ==> res@[writer_id] == self@.conns[writer_id].len(),
    {
        let ids = keys_to_vec(&self.conns_for_writer);
        let mut out: HashMap<u64, usize> = HashMap::new();
        let mut i: usize = 0;
        while i < ids.len()
            invariant
                i <= ids@.len(),
                ids@.to_set() == self.conns_for_writer@.dom(),
                forall|writer_id: u64| #[trigger]
                    out@.contains_key(writer_id) ==> self.conns_for_writer@.contains_key(writer_id)
                        && out@[writer_id] == self.conns_for_writer@[writer_id]@.len(),
                forall|j: int| 0 <= j < i ==> out@.contains_key(#[trigger] ids@[j]),
            decreases ids@.len() - i,
        {
            let writer_id: u64 = ids[i];
            assert(ids@.to_set().contains(ids@[i as int]));
            if let Some(conns) = self.conns_for_writer.get(&writer_id) {
                out.insert(writer_id, conns.len());
            }
            i = i + 1;
        }
        assert forall|writer_id: u64|
            self.conns_for_writer@.contains_key(writer_id) implies out@.contains_key(writer_id) by {
            assert(ids@.to_set().contains(writer_id));
            let j = choose|j: int| 0 <= j < ids@.len() && ids@[j] == writer_id;
            assert(out@.contains_key(ids@[j]));
        }
        assert(out@.dom() =~= self@.conns.dom());
        out
    }

    /// Number of connections that want to reach each data centre.
    fn active_sessions(&self) -> (res: HashMap<i16, usize>)
        ensures
            forall|target_dc: i16| #[trigger]
                res@.contains_key(target_dc) <==> target_dc != 0 && !self@.sessions_to(
                    target_dc,
                ).is_empty(),
            forall|target_dc: i16| #[trigger]
                res@.contains_key(target_dc) ==> res@[target_dc] == self@.sessions_to(
                    target_dc,
                ).len(),
    {
        let ids = keys_to_vec(&self.meta);
        let mut out: HashMap<i16, usize> = HashMap::new();
        let mut i: usize = 0;
        proof {
            assert forall|target_dc: i16| #[trigger]
                reaching(self.meta@, ids@.take(0), target_dc) == Set::<u64>::empty() by {
                assert(reaching(self.meta@, ids@.take(0), target_dc) =~= Set::<u64>::empty());
            }
        }
        while i < ids.len()
            invariant
                i <= ids@.len(),
                ids@.no_duplicates(),
                ids@.to_set() == self.meta@.dom(),
                forall|target_dc: i16|
                    (#[trigger] reaching(self.meta@, ids@.take(i as int), target_dc)).finite()
                        && reaching(self.meta@, ids@.take(i as int), target_dc).len() <= i,
                forall|target_dc: i16| #[trigger]
                    out@.contains_key(target_dc) <==> target_dc != 0 && !reaching(
                        self.meta@,
                        ids@.take(i as int),
                        target_dc,
                    ).is_empty(),
                forall|target_dc: i16| #[trigger]
                    out@.contains_key(target_dc) ==> out@[target_dc] == reaching(
                        self.meta@,
                        ids@.take(i as int),
                        target_dc,
                    ).len(),
            decreases ids@.len() - i,
        {
            let conn_id: u64 = ids[i];
            let ghost seen = ids@.take(i as int);
            let ghost more = ids@.take(i + 1);
            proof {
                assert(ids@.to_set().contains(ids@[i as int]));
                assert(more =~= seen.push(conn_id));
                assert(!seen.contains(conn_id));
                assert forall|target_dc: i16| #[trigger]
                    reaching(self.meta@, more, target_dc) == (if self.meta@[conn_id].target_dc
                        == target_dc {
                        reaching(self.meta@, seen, target_dc).insert(conn_id)
                    } else {
                        reaching(self.meta@, seen, target_dc)
                    }) by {
                    lemma_reaching_push(self.meta@, seen, conn_id, target_dc);
                }
            }
            if let Some(meta) = self.meta.get(&conn_id) {
                if meta.target_dc != 0 {
                    let ghost known = reaching(self.meta@, seen, meta.target_dc);
                    assert(known.finite());
                    assert(known.len() <= i);
                    let count: usize = match out.get(&meta.target_dc) {
                        Some(count) => *count,
                        None => 0,
                    };
                    assert(count == known.len());
                    out.insert(meta.target_dc, count + 1);
                }
            }
            proof {
                assert forall|target_dc: i16|
                    (#[trigger] reaching(self.meta@, more, target_dc)).finite() && reaching(
                        self.meta@,
                        more,
                        target_dc,
                    ).len() <= i + 1 by {
                    assert(reaching(self.meta@, seen, target_dc).finite());
                }
            }
            i = i + 1;
        }
        proof {
            assert(ids@.take(i as int) =~= ids@);
            assert forall|target_dc: i16| #[trigger]
                self@.sessions_to(target_dc) == reaching(self.meta@, ids@, target_dc) by {
                assert forall|id: u64| ids@.contains(id) == self.meta@.contains_key(id) by {
                    assert(ids@.to_set().contains(id) == self.meta@.dom().contains(id));
                }
                assert(self@.sessions_to(target_dc) =~= reaching(self.meta@, ids@, target_dc));
            }
        }
        out
    }

    /// How busy the writers and the data centres are.
    pub fn writer_activity_snapshot(&self) -> (res: WriterActivitySnapshot)
        ensures
            res.bound_clients_by_writer@.dom() == self@.conns.dom(),
            forall|writer_id: u64| #[trigger]
                self@.conns.contains_key(writer_id) ==> res.bound_clients_by_writer@[writer_id]
                    == self@.conns[writer_id].len(),
            forall|target_dc: i16| #[trigger]
                res.active_sessions_by_target_dc@.contains_key(target_dc) <==> target_dc != 0
                    && !self@.sessions_to(target_dc).is_empty(),
            forall|target_dc: i16| #[trigger]
                res.active_sessions_by_target_dc@.contains_key(target_dc)
                    ==> res.active_sessions_by_target_dc@[target_dc] == self@.sessions_to(
                    target_dc,
                ).len(),
    {
        WriterActivitySnapshot {
            bound_clients_by_writer: self.bound_clients(),
            active_sessions_by_target_dc: self.active_sessions(),
        }
    }
}

} // verus!

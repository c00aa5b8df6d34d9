//! What the registry guarantees over several calls.

use vstd::prelude::*;

use super::{ConnMeta, ConnWriter, RegistryState, RouteBackpressure};

verus! {

impl RegistryState {
    /// The two directions of the bindings agree with each other and with the quick lookups, and only
    /// known connections are bound, to known writers. Every writer that anything is known of has a set
    /// of connections.
    pub open spec fn consistent(self) -> bool {
        &&& self.writers == self.channels
        &&& self.hot.dom() == self.writer_of.dom()
        &&& forall|conn_id: u64| #[trigger]
            self.writer_of.contains_key(conn_id) ==> {
                &&& self.routes.contains_key(conn_id)
                &&& self.writers.contains_key(self.writer_of[conn_id])
                &&& self.conns_or_none(self.writer_of[conn_id]).contains(conn_id)
                &&& self.meta.contains_key(conn_id)
                &&& self.hot[conn_id].writer_id == self.writer_of[conn_id]
                &&& self.hot[conn_id].meta == self.meta[conn_id]
            }
        &&& forall|writer_id: u64, conn_id: u64| #[trigger]
            self.conns_or_none(writer_id).contains(conn_id) ==> self.writer_of.contains_key(conn_id)
                && self.writer_of[conn_id] == writer_id
        &&& self.writers.dom().subset_of(self.conns.dom())
        &&& self.last_meta.dom().subset_of(self.conns.dom())
        &&& self.idle_since.dom().subset_of(self.conns.dom())
    }
}

/// A new registry is consistent.
pub proof fn law_new_registry_is_consistent(backpressure: RouteBackpressure)
    ensures
        super::empty_registry(backpressure).consistent(),
{
    let state = super::empty_registry(backpressure);
    assert(state.hot.dom() =~= state.writer_of.dom());
}

/// Changing the settings keeps the registry consistent.
pub proof fn law_settings_keep_consistency(state: RegistryState, backpressure: RouteBackpressure)
    requires
        state.consistent(),
    ensures
        (RegistryState { backpressure, ..state }).consistent(),
{
    let after = RegistryState { backpressure, ..state };
    assert forall|writer_id: u64|
        after.conns_or_none(writer_id) == state.conns_or_none(writer_id) by {}
    assert forall|conn_id: u64| #[trigger]
        after.writer_of.contains_key(conn_id) implies state.writer_of.contains_key(conn_id) by {}
}

/// Making connections and writers known keeps the registry consistent.
pub proof fn law_registration_keeps_consistency(
    state: RegistryState,
    id: u64,
    channel: u64,
    budget: u64,
)
    requires
        state.consistent(),
    ensures
        state.register_route(id, channel, budget).consistent(),
        state.register_writer(id, channel).consistent(),
{
    let with_writer = state.register_writer(id, channel);
    assert forall|writer_id: u64|
        with_writer.conns_or_none(writer_id) == state.conns_or_none(writer_id) by {
        if writer_id != id {
            assert(with_writer.conns.contains_key(writer_id) == state.conns.contains_key(
                writer_id,
            ));
        }
    }
    assert forall|conn_id: u64| #[trigger]
        with_writer.writer_of.contains_key(conn_id) implies with_writer.writers.contains_key(
        with_writer.writer_of[conn_id],
    ) && with_writer.routes.contains_key(conn_id) by {
        assert(state.writer_of.contains_key(conn_id));
    }
    let with_route = state.register_route(id, channel, budget);
    assert forall|conn_id: u64| #[trigger]
        with_route.writer_of.contains_key(conn_id) implies with_route.routes.contains_key(
        conn_id,
    ) by {
        assert(state.writer_of.contains_key(conn_id));
    }
    assert forall|writer_id: u64|
        with_route.conns_or_none(writer_id) == state.conns_or_none(writer_id) by {}
}

/// What a released connection changes in the sets of connections.
proof fn lemma_released_conns(
    state: RegistryState,
    conn_id: u64,
    from: u64,
    now: u64,
    writer_id: u64,
)
    ensures
        state.released(conn_id, from, now).conns_or_none(writer_id) == (if writer_id == from {
            state.conns_or_none(writer_id).remove(conn_id)
        } else {
            state.conns_or_none(writer_id)
        }),
{
    let after = state.released(conn_id, from, now);
    if writer_id == from && !state.conns.contains_key(from) {
        assert(Set::<u64>::empty().remove(conn_id) =~= Set::<u64>::empty());
    }
}

/// Forgetting a connection keeps the registry consistent.
pub proof fn law_unregister_keeps_consistency(state: RegistryState, id: u64, now: u64)
    requires
        state.consistent(),
    ensures
        state.unregister(id, now).consistent(),
{
    let after = state.unregister(id, now);
    let forgotten = RegistryState {
        routes: state.routes.remove(id),
        budgets: state.budgets.remove(id),
        hot: state.hot.remove(id),
        meta: state.meta.remove(id),
        writer_of: state.writer_of.remove(id),
        ..state
    };
    assert(after.hot.dom() =~= after.writer_of.dom());
    assert forall|writer_id: u64|
        forgotten.conns_or_none(writer_id) == state.conns_or_none(writer_id) by {}
    assert forall|writer_id: u64|
        after.conns_or_none(writer_id) == state.conns_or_none(writer_id).remove(id) by {
        if state.writer_of.contains_key(id) {
            lemma_released_conns(forgotten, id, state.writer_of[id], now, writer_id);
        }
        if !state.writer_of.contains_key(id) || state.writer_of[id] != writer_id {
            assert(!state.conns_or_none(writer_id).contains(id));
            assert(state.conns_or_none(writer_id).remove(id) =~= state.conns_or_none(writer_id));
        }
    }
    assert forall|conn_id: u64| #[trigger] after.writer_of.contains_key(conn_id) implies {
        &&& after.routes.contains_key(conn_id)
        &&& after.writers.contains_key(after.writer_of[conn_id])
        &&& after.conns_or_none(after.writer_of[conn_id]).contains(conn_id)
        &&& after.meta.contains_key(conn_id)
        &&& after.hot[conn_id].writer_id == after.writer_of[conn_id]
        &&& after.hot[conn_id].meta == after.meta[conn_id]
    } by {
        assert(state.writer_of.contains_key(conn_id));
    }
    assert forall|writer_id: u64, conn_id: u64| #[trigger]
        after.conns_or_none(writer_id).contains(conn_id) implies after.writer_of.contains_key(conn_id)
        && after.writer_of[conn_id] == writer_id by {
        assert(state.conns_or_none(writer_id).contains(conn_id));
    }
}

/// Binding a known connection to a known writer keeps the registry consistent.
pub proof fn law_bind_keeps_consistency(
    state: RegistryState,
    conn_id: u64,
    writer_id: u64,
    meta: ConnMeta,
    now: u64,
)
    requires
        state.consistent(),
        state.bindable(conn_id, writer_id),
    ensures
        state.bind_writer(conn_id, writer_id, meta, now).consistent(),
{
    let after = state.bind_writer(conn_id, writer_id, meta, now);
    let moved = if state.writer_of.contains_key(conn_id) && state.writer_of[conn_id] != writer_id {
        state.released(conn_id, state.writer_of[conn_id], now)
    } else {
        state
    };
    assert(after.hot.dom() =~= after.writer_of.dom());
    assert forall|w: u64|
        after.conns_or_none(w) == (if w == writer_id {
            state.conns_or_none(w).insert(conn_id)
        } else {
            state.conns_or_none(w).remove(conn_id)
        }) by {
        if state.writer_of.contains_key(conn_id) && state.writer_of[conn_id] != writer_id {
            lemma_released_conns(state, conn_id, state.writer_of[conn_id], now, w);
        }
        if w != writer_id {
            assert(after.conns_or_none(w) == moved.conns_or_none(w));
            if !state.conns_or_none(w).contains(conn_id) {
                assert(state.conns_or_none(w).remove(conn_id) =~= state.conns_or_none(w));
            }
        }
    }
    assert forall|c: u64| #[trigger] after.writer_of.contains_key(c) implies {
        &&& after.routes.contains_key(c)
        &&& after.writers.contains_key(after.writer_of[c])
        &&& after.conns_or_none(after.writer_of[c]).contains(c)
        &&& after.meta.contains_key(c)
        &&& after.hot[c].writer_id == after.writer_of[c]
        &&& after.hot[c].meta == after.meta[c]
    } by {
        if c != conn_id {
            assert(state.writer_of.contains_key(c));
        }
    }
    assert forall|w: u64, c: u64| #[trigger]
        after.conns_or_none(w).contains(c) implies after.writer_of.contains_key(c)
        && after.writer_of[c] == w by {
        if c != conn_id {
            assert(state.conns_or_none(w).contains(c));
        }
    }
}

/// Marking a writer as idle keeps the registry consistent.
pub proof fn law_idle_mark_keeps_consistency(state: RegistryState, writer_id: u64, now: u64)
    requires
        state.consistent(),
    ensures
        state.mark_writer_idle(writer_id, now).consistent(),
{
    let after = state.mark_writer_idle(writer_id, now);
    assert forall|w: u64| after.conns_or_none(w) == state.conns_or_none(w) by {
        if w != writer_id {
            assert(after.conns.contains_key(w) == state.conns.contains_key(w));
        }
    }
    assert forall|conn_id: u64| #[trigger]
        after.writer_of.contains_key(conn_id) implies after.conns_or_none(
        after.writer_of[conn_id],
    ).contains(conn_id) by {
        assert(state.writer_of.contains_key(conn_id));
    }
}

/// Losing a writer keeps the registry consistent, takes the writer from exactly its connections, and
/// leaves no connection that leads to it.
pub proof fn law_lost_writer_leaves_no_connection(state: RegistryState, writer_id: u64)
    requires
        state.consistent(),
    ensures
        state.writer_lost(writer_id).consistent(),
        state.losing(writer_id) == state.conns_or_none(writer_id),
        forall|conn_id: u64| #[trigger]
            state.losing(writer_id).contains(conn_id) <==> state.writer_of.contains_key(conn_id)
                && state.writer_of[conn_id] == writer_id,
        forall|conn_id: u64| #[trigger]
            state.writer_lost(writer_id).writer(conn_id) == (if state.losing(writer_id).contains(
                conn_id,
            ) {
                None
            } else {
                state.writer(conn_id)
            }),
{
    let after = state.writer_lost(writer_id);
    let losing = state.losing(writer_id);
    assert(losing =~= state.conns_or_none(writer_id));
    assert forall|conn_id: u64| #[trigger]
        losing.contains(conn_id) <==> state.writer_of.contains_key(conn_id)
            && state.writer_of[conn_id] == writer_id by {
        if state.writer_of.contains_key(conn_id) {
            assert(state.conns_or_none(state.writer_of[conn_id]).contains(conn_id));
        }
    }
    let hot_losing = losing.filter(
        |conn_id: u64|
            state.hot.contains_key(conn_id) && state.hot[conn_id].writer_id == writer_id,
    );
    assert forall|conn_id: u64| losing.contains(conn_id) implies hot_losing.contains(conn_id) by {
        assert(state.writer_of.contains_key(conn_id));
        assert(state.hot.dom().contains(conn_id));
    }
    assert(hot_losing =~= losing);
    assert(after.hot.dom() =~= after.writer_of.dom());
    assert forall|w: u64|
        after.conns_or_none(w) == (if w == writer_id {
            Set::empty()
        } else {
            state.conns_or_none(w)
        }) by {}
    assert forall|c: u64| #[trigger] after.writer_of.contains_key(c) implies {
        &&& after.routes.contains_key(c)
        &&& after.writers.contains_key(after.writer_of[c])
        &&& after.conns_or_none(after.writer_of[c]).contains(c)
        &&& after.meta.contains_key(c)
        &&& after.hot[c].writer_id == after.writer_of[c]
        &&& after.hot[c].meta == after.meta[c]
    } by {
        assert(state.writer_of.contains_key(c));
        assert(!losing.contains(c));
    }
    assert forall|w: u64, c: u64| #[trigger]
        after.conns_or_none(w).contains(c) implies after.writer_of.contains_key(c)
        && after.writer_of[c] == w by {
        assert(state.conns_or_none(w).contains(c));
    }
    assert forall|conn_id: u64| #[trigger]
        after.writer(conn_id) == (if losing.contains(conn_id) {
            None
        } else {
            state.writer(conn_id)
        }) by {
        if state.hot.contains_key(conn_id) {
            assert(state.writer_of.dom().contains(conn_id));
            assert(state.writer_of.contains_key(conn_id));
        }
    }
}

/// Forgetting a writer without connections keeps the registry consistent and changes the writer of no
/// connection.
pub proof fn law_empty_writer_leaves_quietly(state: RegistryState, writer_id: u64)
    requires
        state.consistent(),
        state.conns_or_none(writer_id).is_empty(),
    ensures
        state.without_writer(writer_id).consistent(),
        forall|conn_id: u64| #[trigger]
            state.without_writer(writer_id).writer(conn_id) == state.writer(conn_id),
{
    let after = state.without_writer(writer_id);
    assert forall|w: u64| after.conns_or_none(w) == state.conns_or_none(w) by {
        if w == writer_id {
            assert(state.conns_or_none(w) =~= Set::<u64>::empty());
        }
    }
    assert forall|c: u64| #[trigger] after.writer_of.contains_key(c) implies {
        &&& after.writers.contains_key(after.writer_of[c])
        &&& after.conns_or_none(after.writer_of[c]).contains(c)
    } by {
        assert(state.writer_of.contains_key(c));
    }
    assert forall|conn_id: u64| #[trigger] after.writer(conn_id) == state.writer(conn_id) by {
        if state.hot.contains_key(conn_id) {
            assert(state.writer_of.dom().contains(conn_id));
            assert(state.writer_of.contains_key(conn_id));
        }
    }
}

/// A binding is found, and leaves every other connection where it was; so does forgetting it.
pub proof fn law_binding_is_found_and_forgotten(
    state: RegistryState,
    conn_id: u64,
    writer_id: u64,
    meta: ConnMeta,
    bound_at: u64,
    forgotten_at: u64,
)
    requires
        state.consistent(),
        state.bindable(conn_id, writer_id),
    ensures
        ({
            let bound = state.bind_writer(conn_id, writer_id, meta, bound_at);
            let forgotten = bound.unregister(conn_id, forgotten_at);
            &&& bound.writer(conn_id) == Some(
                ConnWriter { writer_id, tx: state.writers[writer_id] },
            )
            &&& bound.hot[conn_id].meta == meta
            &&& forgotten.writer(conn_id) is None
            &&& !forgotten.routes.contains_key(conn_id)
            &&& forall|other: u64|
                other != conn_id ==> #[trigger] bound.writer(other) == state.writer(other)
                    && forgotten.writer(other) == state.writer(other)
        }),
{
}

/// A call that changes a registry.
pub enum RegistryCall {
    RegisterRoute { id: u64, channel: u64, budget: u64 },
    RegisterWriter { writer_id: u64, channel: u64 },
    Unregister { id: u64, now: u64 },
    BindWriter { conn_id: u64, writer_id: u64, meta: ConnMeta, now: u64 },
    MarkWriterIdle { writer_id: u64, now: u64 },
    UnregisterWriterIfEmpty { writer_id: u64 },
    WriterLost { writer_id: u64 },
    SetBackpressure(RouteBackpressure),
}

impl RegistryCall {
    /// State after the call.
    pub open spec fn made(self, state: RegistryState) -> RegistryState {
        match self {
            RegistryCall::RegisterRoute { id, channel, budget } => state.register_route(
                id,
                channel,
                budget,
            ),
            RegistryCall::RegisterWriter { writer_id, channel } => state.register_writer(
                writer_id,
                channel,
            ),
            RegistryCall::Unregister { id, now } => state.unregister(id, now),
            RegistryCall::BindWriter { conn_id, writer_id, meta, now } => if state.bindable(
                conn_id,
                writer_id,
            ) {
                state.bind_writer(conn_id, writer_id, meta, now)
            } else {
                state
            },
            RegistryCall::MarkWriterIdle { writer_id, now } => state.mark_writer_idle(
                writer_id,
                now,
            ),
            RegistryCall::UnregisterWriterIfEmpty { writer_id } => if state.conns_or_none(
                writer_id,
            ).is_empty() && state.conns.contains_key(writer_id) {
                state.without_writer(writer_id)
            } else {
                state
            },
            RegistryCall::WriterLost { writer_id } => state.writer_lost(writer_id),
            RegistryCall::SetBackpressure(backpressure) => RegistryState { backpressure, ..state },
        }
    }

    /// Whether the call is about the binding of a connection to a writer: it forgets the connection or
    /// binds it, or it loses the writer or gives it another channel.
    pub open spec fn concerns(self, conn_id: u64, writer_id: u64) -> bool {
        match self {
            RegistryCall::Unregister { id, .. } => id == conn_id,
            RegistryCall::BindWriter { conn_id: bound, .. } => bound == conn_id,
            RegistryCall::WriterLost { writer_id: lost } => lost == writer_id,
            RegistryCall::RegisterWriter { writer_id: registered, .. } => registered == writer_id,
            _ => false,
        }
    }
}

/// State after each of the calls was made in turn.
pub open spec fn after_calls(state: RegistryState, calls: Seq<RegistryCall>) -> RegistryState
    decreases calls.len(),
{
    if calls.len() == 0 {
        state
    } else {
        calls.last().made(after_calls(state, calls.drop_last()))
    }
}

proof fn lemma_call_keeps_consistency(state: RegistryState, call: RegistryCall)
    requires
        state.consistent(),
    ensures
        call.made(state).consistent(),
{
    match call {
        RegistryCall::RegisterRoute { id, channel, budget } => {
            law_registration_keeps_consistency(state, id, channel, budget);
        },
        RegistryCall::RegisterWriter { writer_id, channel } => {
            law_registration_keeps_consistency(state, writer_id, channel, 0);
        },
        RegistryCall::Unregister { id, now } => {
            law_unregister_keeps_consistency(state, id, now);
        },
        RegistryCall::BindWriter { conn_id, writer_id, meta, now } => {
            if state.bindable(conn_id, writer_id) {
                law_bind_keeps_consistency(state, conn_id, writer_id, meta, now);
            }
        },
        RegistryCall::MarkWriterIdle { writer_id, now } => {
            law_idle_mark_keeps_consistency(state, writer_id, now);
        },
        RegistryCall::UnregisterWriterIfEmpty { writer_id } => {
            if state.conns_or_none(writer_id).is_empty() {
                law_empty_writer_leaves_quietly(state, writer_id);
            }
        },
        RegistryCall::WriterLost { writer_id } => {
            law_lost_writer_leaves_no_connection(state, writer_id);
        },
        RegistryCall::SetBackpressure(backpressure) => {
            law_settings_keep_consistency(state, backpressure);
        },
    }
}

/// Whatever calls are made, the registry stays consistent.
pub proof fn law_calls_keep_consistency(state: RegistryState, calls: Seq<RegistryCall>)
    requires
        state.consistent(),
    ensures
        after_calls(state, calls).consistent(),
    decreases calls.len(),
{
    if calls.len() > 0 {
        law_calls_keep_consistency(state, calls.drop_last());
        lemma_call_keeps_consistency(after_calls(state, calls.drop_last()), calls.last());
    }
}

/// A call that is not about a binding leaves it.
proof fn lemma_call_keeps_binding(
    state: RegistryState,
    call: RegistryCall,
    conn_id: u64,
    writer_id: u64,
)
    requires
        state.consistent(),
        state.writer_of.contains_key(conn_id),
        state.writer_of[conn_id] == writer_id,
        !call.concerns(conn_id, writer_id),
    ensures
        call.made(state).writer_of.contains_key(conn_id),
        call.made(state).writer_of[conn_id] == writer_id,
        call.made(state).writer(conn_id) == state.writer(conn_id),
        call.made(state).hot[conn_id] == state.hot[conn_id],
{
    assert(state.hot.dom().contains(conn_id));
    assert(state.conns_or_none(writer_id).contains(conn_id));
    match call {
        RegistryCall::WriterLost { writer_id: lost } => {
            assert(!state.losing(lost).contains(conn_id));
        },
        _ => {},
    }
}

/// A connection that was bound leads to its writer, and keeps its purpose, whatever calls are made, until
/// one forgets it or binds it anew, or loses its writer or gives it another channel.
pub proof fn law_binding_is_found_until_forgotten(
    state: RegistryState,
    conn_id: u64,
    writer_id: u64,
    meta: ConnMeta,
    bound_at: u64,
    calls: Seq<RegistryCall>,
)
    requires
        state.consistent(),
        state.bindable(conn_id, writer_id),
        forall|i: int|
            0 <= i < calls.len() ==> !(#[trigger] calls[i]).concerns(conn_id, writer_id),
    ensures
        ({
            let later = after_calls(state.bind_writer(conn_id, writer_id, meta, bound_at), calls);
            &&& later.writer(conn_id) == Some(
                ConnWriter { writer_id, tx: state.writers[writer_id] },
            )
            &&& later.hot[conn_id].meta == meta
            &&& later.writer_of.contains_key(conn_id)
            &&& later.writer_of[conn_id] == writer_id
        }),
    decreases calls.len(),
{
    let bound = state.bind_writer(conn_id, writer_id, meta, bound_at);
    law_bind_keeps_consistency(state, conn_id, writer_id, meta, bound_at);
    if calls.len() > 0 {
        let earlier = calls.drop_last();
        assert forall|i: int| 0 <= i < earlier.len() implies !(#[trigger] earlier[i]).concerns(
            conn_id,
            writer_id,
        ) by {
            assert(earlier[i] == calls[i]);
        }
        assert(calls[calls.len() - 1] == calls.last());
        law_binding_is_found_until_forgotten(state, conn_id, writer_id, meta, bound_at, earlier);
        law_calls_keep_consistency(bound, earlier);
        lemma_call_keeps_binding(
            after_calls(bound, earlier),
            calls.last(),
            conn_id,
            writer_id,
        );
    }
}

} // verus!

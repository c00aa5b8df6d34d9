//! What the calls of a registry change and what they leave, and what comes of a response, told by the
//! entries and the numbers themselves.

use vstd::prelude::*;

use super::route::{
    AfterTrySend, FullPolicy, MeResponse, PendingResponse, PermitOutcome, PermitWait,
    RouteBytePermit, RouteResult, RouteStep, SendOutcome, SendWait, TrySendOutcome,
};
use super::{
    empty_registry, ConnMeta, ConnWriter, HotConnBinding, RegistryState, RouteBackpressure,
};

verus! {

/// Two tables hold the same under every key but one.
pub open spec fn same_but<V>(before: Map<u64, V>, after: Map<u64, V>, key: u64) -> bool {
    forall|other: u64|
        other != key ==> (#[trigger] after.contains_key(other) <==> before.contains_key(other)) && (
        before.contains_key(other) ==> after[other] == before[other])
}

/// A table holds a value under a key.
pub open spec fn leads_to<V>(table: Map<u64, V>, key: u64, value: V) -> bool {
    table.contains_key(key) && table[key] == value
}

/// A response that goes into its channel is routed, and nothing else is: not one whose channel is closed,
/// and not one whose channel is full, whatever is done about that and whatever the settings are.
pub proof fn law_only_what_is_sent_is_routed(
    full: FullPolicy,
    backpressure: RouteBackpressure,
    outcome: TrySendOutcome,
)
    ensures
        full.after_try_send(backpressure, TrySendOutcome::Sent) == AfterTrySend::Finish(
            RouteResult::Routed,
        ),
        full.after_try_send(backpressure, TrySendOutcome::Closed) == AfterTrySend::Finish(
            RouteResult::ChannelClosed,
        ),
        full.after_try_send(backpressure, outcome) == AfterTrySend::Finish(RouteResult::Routed)
            ==> outcome == TrySendOutcome::Sent,
        full.after_try_send(backpressure, outcome) == AfterTrySend::Finish(RouteResult::ChannelClosed)
            ==> outcome == TrySendOutcome::Closed,
        outcome is Full ==> (full.after_try_send(backpressure, outcome) is Send <==> !(full is Drop)),
        full.after_try_send(backpressure, outcome) matches AfterTrySend::Finish(result) ==> outcome is Full
            ==> result == RouteResult::QueueFullBase,
{
}

/// A channel is waited for as long as was asked for; under a policy that adapts, a highly used channel is
/// waited for at least as long as the settings say for such. The wait remembers whether the channel is
/// highly used.
pub proof fn law_wait_is_as_long_as_asked_for(
    backpressure: RouteBackpressure,
    free: usize,
    asked_ms: u64,
)
    ensures
        ({
            let full = TrySendOutcome::Full { free };
            &&& FullPolicy::Fixed { timeout_ms: asked_ms }.after_try_send(
                backpressure,
                full,
            ) matches AfterTrySend::Send(fixed) && fixed.timeout_ms == asked_ms && (
            fixed.high_profile <==> backpressure.highly_used(free))
        }),
        ({
            let full = TrySendOutcome::Full { free };
            &&& FullPolicy::Adaptive { base_timeout_ms: asked_ms }.after_try_send(
                backpressure,
                full,
            ) matches AfterTrySend::Send(adapted)
            &&& adapted.high_profile <==> backpressure.highly_used(free)
            &&& adapted.timeout_ms >= asked_ms
            &&& !backpressure.highly_used(free) ==> adapted.timeout_ms == asked_ms
            &&& backpressure.highly_used(free) ==> adapted.timeout_ms
                >= backpressure.high_timeout_ms && (adapted.timeout_ms == asked_ms
                || adapted.timeout_ms == backpressure.high_timeout_ms)
        }),
{
}

/// A channel counts as highly used from the set share of its capacity on, where one percent is the least
/// share that can be set and all of it the greatest. A channel without capacity always does. The
/// hundredfold of the use is counted as far as a machine word goes.
pub proof fn law_highly_used_from_the_watermark_on(backpressure: RouteBackpressure, free: usize)
    ensures
        backpressure.channel_capacity == 0 ==> backpressure.highly_used(free),
        0 < backpressure.channel_capacity <= free ==> !backpressure.highly_used(free),
        free < backpressure.channel_capacity ==> {
            let capacity = backpressure.channel_capacity as int;
            let hundredfold: int = if 100 * (capacity - free) <= usize::MAX {
                100 * (capacity - free)
            } else {
                usize::MAX as int
            };
            let pct = backpressure.high_watermark_pct;
            &&& 1 <= pct <= 100 ==> (backpressure.highly_used(free) <==> hundredfold >= pct
                * capacity)
            &&& pct == 0 ==> (backpressure.highly_used(free) <==> hundredfold >= capacity)
            &&& pct > 100 ==> (backpressure.highly_used(free) <==> hundredfold >= 100 * capacity)
        },
{
    let capacity = backpressure.channel_capacity as int;
    if capacity > 0 && free < capacity {
        let hundredfold: int = if 100 * (capacity - free) <= usize::MAX {
            100 * (capacity - free)
        } else {
            usize::MAX as int
        };
        lemma_share(capacity, hundredfold, backpressure.high_watermark_pct as int);
        lemma_share(capacity, hundredfold, 1);
        lemma_share(capacity, hundredfold, 100);
    }
}

/// A quotient reaches a number if what is divided reaches that many wholes.
proof fn lemma_share(whole: int, amount: int, pct: int)
    requires
        whole > 0,
        amount >= 0,
        pct >= 0,
    ensures
        amount / whole >= pct <==> amount >= pct * whole,
{
    let quotient = amount / whole;
    assert(quotient * whole <= amount < (quotient + 1) * whole) by (nonlinear_arith)
        requires
            whole > 0,
            quotient == amount / whole,
    ;
    assert(quotient >= pct ==> quotient * whole >= pct * whole) by (nonlinear_arith)
        requires
            whole > 0,
    ;
    assert(quotient < pct ==> (quotient + 1) * whole <= pct * whole) by (nonlinear_arith)
        requires
            whole > 0,
    ;
}

/// However little of a channel is free, its use is counted no further than a machine word goes: what
/// counts as highly used stays so when less is free.
pub proof fn law_less_room_stays_highly_used(
    backpressure: RouteBackpressure,
    free: usize,
    busier: usize,
)
    requires
        busier <= free,
        backpressure.highly_used(free),
    ensures
        backpressure.highly_used(busier),
{
    let capacity = backpressure.channel_capacity;
    if capacity > 0 {
        let low: int = if free < capacity {
            (capacity - free) * 100
        } else {
            0
        };
        let high: int = if busier < capacity {
            (capacity - busier) * 100
        } else {
            0
        };
        let from: int = if low <= usize::MAX {
            low
        } else {
            usize::MAX as int
        };
        let to: int = if high <= usize::MAX {
            high
        } else {
            usize::MAX as int
        };
        let divisor: int = capacity as int;
        assert(from / divisor <= to / divisor) by (nonlinear_arith)
            requires
                from <= to,
                divisor > 0,
        ;
    }
}

/// A response that waited for room is routed if it was sent, and only then. One that waited in vain is
/// told from how highly the channel was used.
pub proof fn law_waited_response_fares_as_it_went(wait: SendWait, outcome: SendOutcome)
    ensures
        wait.after_send(outcome) == RouteResult::Routed <==> outcome == SendOutcome::Sent,
        wait.after_send(outcome) == RouteResult::ChannelClosed <==> outcome == SendOutcome::Closed,
        wait.after_send(outcome) == RouteResult::QueueFullHigh <==> outcome == SendOutcome::TimedOut
            && wait.high_profile,
        wait.after_send(outcome) == RouteResult::QueueFullBase <==> outcome == SendOutcome::TimedOut
            && !wait.high_profile,
{
}

/// A response without a share of the byte budget.
pub open spec fn is_bare(response: MeResponse) -> bool {
    match response {
        MeResponse::Data { route_permit, .. } => route_permit is None,
        MeResponse::Other { .. } => false,
    }
}

/// A response is what another one was, with a share of the byte budget.
pub open spec fn carries(
    bare: MeResponse,
    response: MeResponse,
    permit: RouteBytePermit,
) -> bool {
    match bare {
        MeResponse::Data { flags, data, .. } => response == (MeResponse::Data {
            flags,
            data,
            route_permit: Some(permit),
        }),
        MeResponse::Other { .. } => response == bare,
    }
}

/// A share of the byte budget goes with the response into the same channel, under the same policy. Without
/// one, the response is given up: as to a full queue, or as to a closed channel where the budget was
/// closed while it was waited for.
pub proof fn law_permit_sends_the_response_on(
    pending: PendingResponse,
    wait: PermitWait,
    outcome: PermitOutcome,
)
    ensures
        outcome matches PermitOutcome::Acquired(permit) ==> (pending.after_permit(
            wait,
            outcome,
        ) matches RouteStep::TrySend(ready) && ready.channel == pending.channel && ready.full
            == pending.full && carries(pending.response, ready.response, permit)),
        outcome is Unavailable ==> pending.after_permit(wait, outcome) == RouteStep::Finish(
            RouteResult::QueueFullHigh,
        ),
        outcome is Closed && wait is Try ==> pending.after_permit(wait, outcome)
            == RouteStep::Finish(RouteResult::QueueFullHigh),
        outcome is Closed && !(wait is Try) ==> pending.after_permit(wait, outcome)
            == RouteStep::Finish(RouteResult::ChannelClosed),
{
}

/// A step puts a response into the channel of a connection, or first asks for a share of the byte budget
/// of the connection, under a policy for a full channel and with a limit on the wait for the share.
pub open spec fn heads_for(
    state: RegistryState,
    step: RouteStep,
    id: u64,
    response: MeResponse,
    permits: u32,
    full: FullPolicy,
    wait: PermitWait,
) -> bool {
    if !state.routes.contains_key(id) {
        step == RouteStep::Finish(RouteResult::NoConn)
    } else if !is_bare(response) {
        step matches RouteStep::TrySend(pending) && pending.channel == state.routes[id]
            && pending.response == response && pending.full == full
    } else if !state.budgets.contains_key(id) {
        step == RouteStep::Finish(RouteResult::NoConn)
    } else {
        step matches RouteStep::Acquire(request, pending) && request.budget == state.budgets[id]
            && request.permits == permits && request.wait == wait && pending.channel
            == state.routes[id] && pending.response == response && pending.full == full
    }
}

/// A response heads for the channel of its connection; data that have no share of the byte budget get one
/// first. Nothing waits where nothing may be waited for; each wait is as long as stated; and where
/// nothing is stated, it is as long as the settings say, but a millisecond at least.
pub proof fn law_response_heads_for_its_connection(
    state: RegistryState,
    id: u64,
    response: MeResponse,
    permits: u32,
    timeout_ms: u64,
)
    ensures
        heads_for(
            state,
            state.route_nowait(id, response, permits),
            id,
            response,
            permits,
            FullPolicy::Drop,
            PermitWait::Try,
        ),
        heads_for(
            state,
            state.route_with_timeout(id, response, permits, timeout_ms),
            id,
            response,
            permits,
            if timeout_ms == 0 {
                FullPolicy::Drop
            } else {
                FullPolicy::Fixed { timeout_ms }
            },
            if timeout_ms == 0 {
                PermitWait::Try
            } else {
                PermitWait::Timeout(timeout_ms)
            },
        ),
        exists|base: u64|
            base >= 1 && base >= state.backpressure.base_timeout_ms && (base == 1 || base
                == state.backpressure.base_timeout_ms) && #[trigger] heads_for(
                state,
                state.route(id, response, permits),
                id,
                response,
                permits,
                FullPolicy::Adaptive { base_timeout_ms: base },
                PermitWait::Timeout(base),
            ),
{
    let base: u64 = if state.backpressure.base_timeout_ms >= 1 {
        state.backpressure.base_timeout_ms
    } else {
        1
    };
    assert(heads_for(
        state,
        state.route(id, response, permits),
        id,
        response,
        permits,
        FullPolicy::Adaptive { base_timeout_ms: base },
        PermitWait::Timeout(base),
    ));
}

/// A new registry knows nothing but its settings.
pub proof fn law_new_registry_knows_nothing(backpressure: RouteBackpressure, key: u64)
    ensures
        empty_registry(backpressure).backpressure == backpressure,
        !empty_registry(backpressure).routes.contains_key(key),
        !empty_registry(backpressure).budgets.contains_key(key),
        !empty_registry(backpressure).hot.contains_key(key),
        !empty_registry(backpressure).channels.contains_key(key),
        !empty_registry(backpressure).writers.contains_key(key),
        !empty_registry(backpressure).writer_of.contains_key(key),
        !empty_registry(backpressure).conns.contains_key(key),
        !empty_registry(backpressure).meta.contains_key(key),
        !empty_registry(backpressure).last_meta.contains_key(key),
        !empty_registry(backpressure).idle_since.contains_key(key),
{
}

/// A connection becomes known with exactly the channel and the byte budget that it came with, and nothing
/// else changes.
pub proof fn law_route_is_registered(state: RegistryState, id: u64, channel: u64, budget: u64)
    ensures
        ({
            let after = state.register_route(id, channel, budget);
            &&& leads_to(after.routes, id, channel)
            &&& leads_to(after.budgets, id, budget)
            &&& same_but(state.routes, after.routes, id)
            &&& same_but(state.budgets, after.budgets, id)
            &&& after == (RegistryState { routes: after.routes, budgets: after.budgets, ..state })
        }),
{
}

/// A writer becomes known with exactly the channel that it came with. It keeps the connections that it
/// had, and a new one has none. Nothing else changes.
pub proof fn law_writer_is_registered(state: RegistryState, writer_id: u64, channel: u64)
    ensures
        ({
            let after = state.register_writer(writer_id, channel);
            &&& leads_to(after.writers, writer_id, channel)
            &&& leads_to(after.channels, writer_id, channel)
            &&& same_but(state.writers, after.writers, writer_id)
            &&& same_but(state.channels, after.channels, writer_id)
            &&& same_but(state.conns, after.conns, writer_id)
            &&& after.conns.contains_key(writer_id)
            &&& forall|conn_id: u64| #[trigger]
                after.conns[writer_id].contains(conn_id) <==> state.conns.contains_key(writer_id)
                    && state.conns[writer_id].contains(conn_id)
            &&& after == (RegistryState {
                writers: after.writers,
                channels: after.channels,
                conns: after.conns,
                ..state
            })
        }),
{
}

/// A writer gave up a connection: it has exactly its other connections left, and is idle from `now` on if
/// there are none. Other writers are as they were.
pub open spec fn gave_up(
    before: RegistryState,
    after: RegistryState,
    conn_id: u64,
    writer_id: u64,
    now: u64,
) -> bool {
    if before.conns.contains_key(writer_id) {
        &&& after.conns.contains_key(writer_id)
        &&& forall|other: u64| #[trigger]
            after.conns[writer_id].contains(other) <==> other != conn_id
                && before.conns[writer_id].contains(other)
        &&& same_but(before.conns, after.conns, writer_id)
        &&& same_but(before.idle_since, after.idle_since, writer_id)
        &&& (forall|other: u64| #[trigger]
            before.conns[writer_id].contains(other) ==> other == conn_id) ==> leads_to(
            after.idle_since,
            writer_id,
            now,
        )
        &&& (exists|other: u64| #[trigger]
            before.conns[writer_id].contains(other) && other != conn_id) ==> after.idle_since
            == before.idle_since
    } else {
        after.conns == before.conns && after.idle_since == before.idle_since
    }
}

/// A connection that is forgotten is gone from every table, and its writer gives it up. No other
/// connection and no writer is forgotten.
pub proof fn law_unregistered_connection_is_forgotten(state: RegistryState, id: u64, now: u64)
    ensures
        ({
            let after = state.unregister(id, now);
            &&& !after.routes.contains_key(id) && same_but(state.routes, after.routes, id)
            &&& !after.budgets.contains_key(id) && same_but(state.budgets, after.budgets, id)
            &&& !after.hot.contains_key(id) && same_but(state.hot, after.hot, id)
            &&& !after.meta.contains_key(id) && same_but(state.meta, after.meta, id)
            &&& !after.writer_of.contains_key(id) && same_but(state.writer_of, after.writer_of, id)
            &&& after.writers == state.writers && after.channels == state.channels
            &&& after.last_meta == state.last_meta && after.backpressure == state.backpressure
            &&& state.writer_of.contains_key(id) ==> gave_up(
                state,
                after,
                id,
                state.writer_of[id],
                now,
            )
            &&& !state.writer_of.contains_key(id) ==> after.conns == state.conns && after.idle_since
                == state.idle_since
        }),
{
    let after = state.unregister(id, now);
    if state.writer_of.contains_key(id) {
        let writer_id = state.writer_of[id];
        lemma_left_without_any(state, id, writer_id);
        assert(gave_up(state, after, id, writer_id, now));
    }
}

/// A writer is left without connections if the one that goes is the only one it has.
proof fn lemma_left_without_any(state: RegistryState, conn_id: u64, writer_id: u64)
    ensures
        ({
            let rest = state.conns[writer_id].remove(conn_id);
            &&& (forall|other: u64| #[trigger]
                state.conns[writer_id].contains(other) ==> other == conn_id) ==> rest.is_empty()
            &&& (exists|other: u64| #[trigger]
                state.conns[writer_id].contains(other) && other != conn_id) ==> !rest.is_empty()
        }),
{
    let all = state.conns[writer_id];
    let rest = all.remove(conn_id);
    if forall|other: u64| #[trigger] all.contains(other) ==> other == conn_id {
        assert(rest =~= Set::<u64>::empty());
    }
    if exists|other: u64| #[trigger] all.contains(other) && other != conn_id {
        let other = choose|other: u64| #[trigger] all.contains(other) && other != conn_id;
        assert(rest.contains(other));
    }
}

/// A connection and a writer can be bound to each other if both are known, and only then.
pub proof fn law_known_can_be_bound(state: RegistryState, conn_id: u64, writer_id: u64)
    ensures
        state.bindable(conn_id, writer_id) <==> state.routes.contains_key(conn_id)
            && state.writers.contains_key(writer_id),
{
}

/// A bound connection is found under its new writer and purpose in every table; the writer is no longer
/// idle and has one connection more, this one. Another writer that had it gives it up. No other
/// connection and no other writer is touched.
pub proof fn law_bound_connection_is_found(
    state: RegistryState,
    conn_id: u64,
    writer_id: u64,
    meta: ConnMeta,
    now: u64,
)
    ensures
        ({
            let after = state.bind_writer(conn_id, writer_id, meta, now);
            &&& leads_to(after.writer_of, conn_id, writer_id)
            &&& same_but(state.writer_of, after.writer_of, conn_id)
            &&& leads_to(after.hot, conn_id, HotConnBinding { writer_id, meta })
            &&& same_but(state.hot, after.hot, conn_id)
            &&& leads_to(after.meta, conn_id, meta) && same_but(state.meta, after.meta, conn_id)
            &&& leads_to(after.last_meta, writer_id, meta)
            &&& same_but(state.last_meta, after.last_meta, writer_id)
            &&& !after.idle_since.contains_key(writer_id)
            &&& after.conns.contains_key(writer_id)
            &&& forall|other: u64| #[trigger]
                after.conns[writer_id].contains(other) <==> other == conn_id || (
                state.conns.contains_key(writer_id) && state.conns[writer_id].contains(other))
            &&& after.routes == state.routes && after.budgets == state.budgets
            &&& after.writers == state.writers && after.channels == state.channels
            &&& after.backpressure == state.backpressure
        }),
        ({
            let after = state.bind_writer(conn_id, writer_id, meta, now);
            let leaves = state.writer_of.contains_key(conn_id) && state.writer_of[conn_id]
                != writer_id;
            let left = state.writer_of[conn_id];
            &&& forall|other: u64|
                other != writer_id && !(leaves && other == left) ==> (
                #[trigger] after.conns.contains_key(other) <==> state.conns.contains_key(other)) && (
                state.conns.contains_key(other) ==> after.conns[other] == state.conns[other])
            &&& forall|other: u64|
                other != writer_id && !(leaves && other == left) ==> (
                #[trigger] after.idle_since.contains_key(other) <==> state.idle_since.contains_key(
                    other,
                )) && (state.idle_since.contains_key(other) ==> after.idle_since[other]
                    == state.idle_since[other])
            &&& leaves && state.conns.contains_key(left) ==> {
                &&& after.conns.contains_key(left)
                &&& forall|other: u64| #[trigger]
                    after.conns[left].contains(other) <==> other != conn_id
                        && state.conns[left].contains(other)
                &&& (forall|other: u64| #[trigger]
                    state.conns[left].contains(other) ==> other == conn_id) ==> leads_to(
                    after.idle_since,
                    left,
                    now,
                )
                &&& (exists|other: u64| #[trigger]
                    state.conns[left].contains(other) && other != conn_id) ==> (
                after.idle_since.contains_key(left) <==> state.idle_since.contains_key(left)) && (
                state.idle_since.contains_key(left) ==> after.idle_since[left]
                    == state.idle_since[left])
            }
        }),
{
    let leaves = state.writer_of.contains_key(conn_id) && state.writer_of[conn_id] != writer_id;
    if leaves {
        lemma_left_without_any(state, conn_id, state.writer_of[conn_id]);
    }
}

/// A writer that is marked as idle is idle from `now` on, or from the earlier time at which it was marked.
/// It keeps its connections, and nothing else changes.
pub proof fn law_idle_mark_is_the_first(state: RegistryState, writer_id: u64, now: u64)
    ensures
        ({
            let after = state.mark_writer_idle(writer_id, now);
            &&& state.idle_since.contains_key(writer_id) ==> after.idle_since == state.idle_since
            &&& !state.idle_since.contains_key(writer_id) ==> leads_to(
                after.idle_since,
                writer_id,
                now,
            ) && same_but(state.idle_since, after.idle_since, writer_id)
            &&& same_but(state.conns, after.conns, writer_id)
            &&& after.conns.contains_key(writer_id)
            &&& forall|conn_id: u64| #[trigger]
                after.conns[writer_id].contains(conn_id) <==> state.conns.contains_key(writer_id)
                    && state.conns[writer_id].contains(conn_id)
            &&& after == (RegistryState {
                conns: after.conns,
                idle_since: after.idle_since,
                ..state
            })
        }),
{
}

/// A writer that is forgotten is gone from every table of writers, and nothing else changes.
pub proof fn law_forgotten_writer_is_gone(state: RegistryState, writer_id: u64)
    ensures
        ({
            let after = state.without_writer(writer_id);
            &&& !after.writers.contains_key(writer_id)
            &&& same_but(state.writers, after.writers, writer_id)
            &&& !after.channels.contains_key(writer_id)
            &&& same_but(state.channels, after.channels, writer_id)
            &&& !after.last_meta.contains_key(writer_id)
            &&& same_but(state.last_meta, after.last_meta, writer_id)
            &&& !after.idle_since.contains_key(writer_id)
            &&& same_but(state.idle_since, after.idle_since, writer_id)
            &&& !after.conns.contains_key(writer_id)
            &&& same_but(state.conns, after.conns, writer_id)
            &&& after.routes == state.routes && after.budgets == state.budgets && after.hot
                == state.hot && after.writer_of == state.writer_of && after.meta == state.meta
                && after.backpressure == state.backpressure
        }),
{
}

/// Exactly the connections of a lost writer that lead to it lose it; they stay known, with their purpose,
/// and every other connection is as it was.
pub proof fn law_lost_writer_is_taken_from_its_connections(
    state: RegistryState,
    writer_id: u64,
    conn_id: u64,
)
    ensures
        ({
            let after = state.writer_lost(writer_id);
            let loses = state.conns.contains_key(writer_id) && state.conns[writer_id].contains(
                conn_id,
            ) && leads_to(state.writer_of, conn_id, writer_id);
            &&& state.losing(writer_id).contains(conn_id) <==> loses
            &&& loses ==> !after.writer_of.contains_key(conn_id)
            &&& !loses ==> (after.writer_of.contains_key(conn_id) <==> state.writer_of.contains_key(
                conn_id,
            ))
            &&& after.writer_of.contains_key(conn_id) ==> after.writer_of[conn_id]
                == state.writer_of[conn_id]
            &&& after.hot.contains_key(conn_id) <==> state.hot.contains_key(conn_id) && !(loses
                && state.hot[conn_id].writer_id == writer_id)
            &&& after.hot.contains_key(conn_id) ==> after.hot[conn_id] == state.hot[conn_id]
            &&& after == (RegistryState {
                writer_of: after.writer_of,
                hot: after.hot,
                ..state.without_writer(writer_id)
            })
        }),
{
}

/// A connection is answered with a writer if it is known, is bound, and the writer has a channel: with
/// exactly that writer and that channel.
pub proof fn law_writer_is_found_with_its_channel(
    state: RegistryState,
    conn_id: u64,
    binding: HotConnBinding,
    channel: u64,
)
    ensures
        state.writer(conn_id) is Some <==> state.routes.contains_key(conn_id)
            && state.hot.contains_key(conn_id) && state.channels.contains_key(
            state.hot[conn_id].writer_id,
        ),
        state.writer(conn_id) is Some && leads_to(state.hot, conn_id, binding) && leads_to(
            state.channels,
            binding.writer_id,
            channel,
        ) ==> state.writer(conn_id) == Some(
            ConnWriter { writer_id: binding.writer_id, tx: channel },
        ),
        state.conns.contains_key(conn_id) ==> state.conns_or_none(conn_id) == state.conns[conn_id],
        !state.conns.contains_key(conn_id) ==> forall|other: u64| !#[trigger]
            state.conns_or_none(conn_id).contains(other),
{
}

/// A connection counts toward a data centre if its purpose is known and names it, and only then.
pub proof fn law_sessions_are_counted_by_purpose(
    state: RegistryState,
    target_dc: i16,
    conn_id: u64,
)
    ensures
        state.sessions_to(target_dc).contains(conn_id) <==> state.meta.contains_key(conn_id)
            && state.meta[conn_id].target_dc == target_dc,
{
}

/// A connection that is answered with a writer is answered with its purpose too, that of its binding; and a
/// bound connection has a purpose whether or not it is answered with a writer.
pub proof fn law_purpose_is_found_with_the_writer(
    state: RegistryState,
    conn_id: u64,
    writer_id: u64,
    meta: ConnMeta,
    now: u64,
)
    ensures
        state.writer_with_meta(conn_id) is Some <==> state.writer(conn_id) is Some,
        state.writer_with_meta(conn_id) matches Some(found) ==> Some(found.0) == state.writer(
            conn_id,
        ) && Some(found.1) == state.bound_meta(conn_id),
        state.bound_meta(conn_id) is Some <==> state.hot.contains_key(conn_id),
        state.bound_meta(conn_id) matches Some(found) ==> found == state.hot[conn_id].meta,
        state.bind_writer(conn_id, writer_id, meta, now).bound_meta(conn_id) == Some(meta),
        state.unregister(conn_id, now).bound_meta(conn_id) is None,
{
}

/// A writer has connections if there is one, and is forgotten for want of them only where it is known and
/// there is none.
pub proof fn law_busy_writer_is_kept(state: RegistryState, writer_id: u64, conn_id: u64)
    ensures
        state.conns.contains_key(writer_id) && state.conns[writer_id].contains(conn_id) ==> state.busy(
            writer_id,
        ) && state.without_idle_writer(writer_id) == state,
        state.conns.contains_key(writer_id) && (forall|other: u64| !#[trigger]
            state.conns[writer_id].contains(other)) ==> !state.busy(writer_id)
            && !state.without_idle_writer(writer_id).writers.contains_key(writer_id)
            && !state.without_idle_writer(writer_id).conns.contains_key(writer_id)
            && state.without_idle_writer(writer_id) == state.without_writer(writer_id),
        !state.conns.contains_key(writer_id) ==> !state.busy(writer_id) && state.without_idle_writer(
            writer_id,
        ) == state,
{
    if state.conns.contains_key(writer_id) && (forall|other: u64| !#[trigger]
        state.conns[writer_id].contains(other)) {
        assert(state.conns[writer_id] =~= Set::<u64>::empty());
    }
}

} // verus!

//! Handing the responses of a middle proxy to their connections.
//!
//! The registry decides what is tried next and what an outcome means. The holder of the channels and
//! byte budgets makes the attempts, and reports how they went.

use vstd::prelude::*;

use super::{ConnRegistry, RegistryState, RouteBackpressure};
use crate::dash::slots_get;

verus! {

/// A share of the byte budget of a connection, known by a number.
#[derive(Debug, Clone, Copy, PartialEq, Eq, Structural)]
pub struct RouteBytePermit {
    pub permit: u64,
}

/// What a middle proxy sends to a connection.
#[derive(Debug, PartialEq, Eq)]
pub enum MeResponse {
    /// Payload, with the share of the byte budget that it holds.
    Data { flags: u32, data: Vec<u8>, route_permit: Option<RouteBytePermit> },
    /// Anything that costs no byte budget, known by a number.
    Other { content: u64 },
}

/// How a response fared.
#[derive(Debug, Clone, Copy, PartialEq, Eq, Structural)]
pub enum RouteResult {
    Routed,
    NoConn,
    ChannelClosed,
    QueueFullBase,
    QueueFullHigh,
}

/// How long to wait for a share of a byte budget.
#[derive(Debug, Clone, Copy, PartialEq, Eq, Structural)]
pub enum PermitWait {
    /// Not at all.
    Try,
    /// As long as stated, in milliseconds.
    Timeout(u64),
    /// As long as it takes.
    Unbounded,
}

/// The share of a byte budget that a response needs.
#[derive(Debug, Clone, Copy, PartialEq, Eq, Structural)]
pub struct PermitRequest {
    pub budget: u64,
    pub permits: u32,
    pub wait: PermitWait,
}

/// What came of asking for a share of a byte budget.
#[derive(Debug, Clone, Copy, PartialEq, Eq, Structural)]
pub enum PermitOutcome {
    Acquired(RouteBytePermit),
    /// The budget did not have enough left, now or within the time.
    Unavailable,
    /// The budget is closed.
    Closed,
}

/// What to do about a channel that is full.
#[derive(Debug, Clone, Copy, PartialEq, Eq, Structural)]
pub enum FullPolicy {
    /// Give the response up.
    Drop,
    /// Wait for room: as long as stated, in milliseconds, or longer where the channel is highly used.
    Adaptive { base_timeout_ms: u64 },
    /// Wait for room as long as stated, in milliseconds.
    Fixed { timeout_ms: u64 },
}

/// A response on its way into a channel.
#[derive(Debug, PartialEq, Eq)]
pub struct PendingResponse {
    pub channel: u64,
    pub response: MeResponse,
    pub full: FullPolicy,
}

/// What is to be done for a response.
#[derive(Debug, PartialEq, Eq)]
pub enum RouteStep {
    Finish(RouteResult),
    /// Ask for a share of the byte budget, then call [`PendingResponse::on_permit`].
    Acquire(PermitRequest, PendingResponse),
    /// Put the response into the channel if there is room, then call [`ConnRegistry::on_try_send`].
    TrySend(PendingResponse),
}

/// What came of putting a response into a channel without waiting.
#[derive(Debug, Clone, Copy, PartialEq, Eq, Structural)]
pub enum TrySendOutcome {
    Sent,
    Closed,
    /// The channel had no room; later it had room for `free` responses.
    Full { free: usize },
}

/// What is to be done after the first attempt on a channel.
#[derive(Debug, Clone, Copy, PartialEq, Eq, Structural)]
pub enum AfterTrySend {
    Finish(RouteResult),
    /// Wait for room at most as long as stated, then call [`SendWait::on_send`].
    Send(SendWait),
}

/// A wait for room in a channel.
#[derive(Debug, Clone, Copy, PartialEq, Eq, Structural)]
pub struct SendWait {
    pub timeout_ms: u64,
    /// Whether the channel counts as highly used.
    pub high_profile: bool,
}

/// What came of waiting for room in a channel.
#[derive(Debug, Clone, Copy, PartialEq, Eq, Structural)]
pub enum SendOutcome {
    Sent,
    Closed,
    TimedOut,
}

impl MeResponse {
    /// Whether the response still needs a share of the byte budget.
    pub open spec fn needs_permit(self) -> bool {
        self matches MeResponse::Data { route_permit, .. } && route_permit is None
    }

    /// The response with a share of the byte budget.
    pub open spec fn with_permit(self, permit: RouteBytePermit) -> MeResponse {
        match self {
            MeResponse::Data { flags, data, .. } => MeResponse::Data {
                flags,
                data,
                route_permit: Some(permit),
            },
            MeResponse::Other { content } => MeResponse::Other { content },
        }
    }

    fn lacks_permit(&self) -> (res: bool)
        ensures
            res == self.needs_permit(),
    {
        match self {
            MeResponse::Data { route_permit, .. } => route_permit.is_none(),
            MeResponse::Other { .. } => false,
        }
    }

    fn attach(self, permit: RouteBytePermit) -> (res: MeResponse)
        ensures
            res == self.with_permit(permit),
    {
        match self {
            MeResponse::Data { flags, data, .. } => MeResponse::Data {
                flags,
                data,
                route_permit: Some(permit),
            },
            MeResponse::Other { content } => MeResponse::Other { content },
        }
    }
}

/// The greater of two numbers.
pub open spec fn greater(a: u64, b: u64) -> u64 {
    if a >= b {
        a
    } else {
        b
    }
}

fn max_of(a: u64, b: u64) -> (res: u64)
    ensures
        res == greater(a, b),
{
    if a >= b {
        a
    } else {
        b
    }
}

/// How long to wait for a share of a byte budget, given a limit in milliseconds.
pub open spec fn permit_wait(timeout_ms: Option<u64>) -> PermitWait {
    match timeout_ms {
        Some(ms) => if ms == 0 {
            PermitWait::Try
        } else {
            PermitWait::Timeout(ms)
        },
        None => PermitWait::Unbounded,
    }
}

/// How much of a channel is in use, in percent. The hundredfold of the use counts no further than to
/// the greatest number of a machine word. A channel without capacity is in full use.
pub open spec fn used_pct(channel_capacity: usize, free: usize) -> int {
    let used = if free < channel_capacity {
        channel_capacity - free
    } else {
        0
    };
    if channel_capacity == 0 {
        100
    } else if used * 100 <= usize::MAX {
        used * 100 / (channel_capacity as int)
    } else {
        usize::MAX as int / (channel_capacity as int)
    }
}

/// The watermark that counts for a set one: at least one percent, at most a hundred.
pub open spec fn watermark(high_watermark_pct: u8) -> u8 {
    if high_watermark_pct < 1 {
        1
    } else if high_watermark_pct > 100 {
        100
    } else {
        high_watermark_pct
    }
}

impl RouteBackpressure {
    /// Whether a channel with so much room counts as highly used.
    pub open spec fn highly_used(self, free: usize) -> bool {
        used_pct(self.channel_capacity, free) >= watermark(self.high_watermark_pct)
    }

    fn watermark_pct(&self) -> (res: u8)
        ensures
            res == watermark(self.high_watermark_pct),
    {
        if self.high_watermark_pct < 1 {
            1
        } else if self.high_watermark_pct > 100 {
            100
        } else {
            self.high_watermark_pct
        }
    }
}

impl RegistryState {
    /// First step for a response to a connection.
    pub open spec fn first_step(
        self,
        id: u64,
        response: MeResponse,
        permits: u32,
        timeout_ms: Option<u64>,
        full: FullPolicy,
    ) -> RouteStep {
        if !self.routes.contains_key(id) {
            RouteStep::Finish(RouteResult::NoConn)
        } else {
            let pending = PendingResponse { channel: self.routes[id], response, full };
            if !response.needs_permit() {
                RouteStep::TrySend(pending)
            } else if self.budgets.contains_key(id) {
                RouteStep::Acquire(
                    PermitRequest {
                        budget: self.budgets[id],
                        permits,
                        wait: permit_wait(timeout_ms),
                    },
                    pending,
                )
            } else {
                RouteStep::Finish(RouteResult::NoConn)
            }
        }
    }

    /// First step of [`ConnRegistry::route`].
    pub open spec fn route(self, id: u64, response: MeResponse, permits: u32) -> RouteStep {
        self.first_step(
            id,
            response,
            permits,
            Some(greater(self.backpressure.base_timeout_ms, 1)),
            FullPolicy::Adaptive {
                base_timeout_ms: greater(self.backpressure.base_timeout_ms, 1),
            },
        )
    }

    /// First step of [`ConnRegistry::route_nowait`].
    pub open spec fn route_nowait(self, id: u64, response: MeResponse, permits: u32) -> RouteStep {
        self.first_step(id, response, permits, Some(0), FullPolicy::Drop)
    }

    /// First step of [`ConnRegistry::route_with_timeout`].
    pub open spec fn route_with_timeout(
        self,
        id: u64,
        response: MeResponse,
        permits: u32,
        timeout_ms: u64,
    ) -> RouteStep {
        if timeout_ms == 0 {
            self.route_nowait(id, response, permits)
        } else {
            self.first_step(
                id,
                response,
                permits,
                Some(timeout_ms),
                FullPolicy::Fixed { timeout_ms },
            )
        }
    }
}

impl ConnRegistry {
    /// Sees that a response gets its share of the byte budget of its connection, unless it needs none.
    fn attach_route_byte_permit(
        &self,
        id: u64,
        pending: PendingResponse,
        permits: u32,
        timeout_ms: Option<u64>,
    ) -> (res: RouteStep)
        requires
            self@.routes.contains_key(id),
            self@.routes[id] == pending.channel,
        ensures
            res == self@.first_step(id, pending.response, permits, timeout_ms, pending.full),
    {
        if !pending.response.lacks_permit() {
            return RouteStep::TrySend(pending);
        }
        match slots_get(&self.byte_budget, id) {
            None => RouteStep::Finish(RouteResult::NoConn),
            Some(budget) => {
                let wait = match timeout_ms {
                    Some(ms) => if ms == 0 {
                        PermitWait::Try
                    } else {
                        PermitWait::Timeout(max_of(ms, 1))
                    },
                    None => PermitWait::Unbounded,
                };
                RouteStep::Acquire(PermitRequest { budget, permits, wait }, pending)
            },
        }
    }

    /// Starts handing a response to a connection. A full channel may take a while to get room, the
    /// longer the more of it is in use. `permits` is what the data of the response costs.
    pub fn route(&self, id: u64, resp: MeResponse, permits: u32) -> (res: RouteStep)
        ensures
            res == self@.route(id, resp, permits),
    {
        match slots_get(&self.routing, id) {
            None => RouteStep::Finish(RouteResult::NoConn),
            Some(channel) => {
                let base_timeout_ms = max_of(self.backpressure.base_timeout_ms, 1);
                let full = FullPolicy::Adaptive { base_timeout_ms };
                let pending = PendingResponse { channel, response: resp, full };
                self.attach_route_byte_permit(id, pending, permits, Some(base_timeout_ms))
            },
        }
    }

    /// Starts handing a response to a connection, without waiting for anything.
    pub fn route_nowait(&self, id: u64, resp: MeResponse, permits: u32) -> (res: RouteStep)
        ensures
            res == self@.route_nowait(id, resp, permits),
    {
        match slots_get(&self.routing, id) {
            None => RouteStep::Finish(RouteResult::NoConn),
            Some(channel) => {
                let pending = PendingResponse { channel, response: resp, full: FullPolicy::Drop };
                self.attach_route_byte_permit(id, pending, permits, Some(0))
            },
        }
    }

    /// Starts handing a response to a connection, with a limit on each wait.
    pub fn route_with_timeout(
        &self,
        id: u64,
        resp: MeResponse,
        permits: u32,
        timeout_ms: u64,
    ) -> (res: RouteStep)
        ensures
            res == self@.route_with_timeout(id, resp, permits, timeout_ms),
    {
        if timeout_ms == 0 {
            return self.route_nowait(id, resp, permits);
        }
        match slots_get(&self.routing, id) {
            None => RouteStep::Finish(RouteResult::NoConn),
            Some(channel) => {
                let full = FullPolicy::Fixed { timeout_ms: max_of(timeout_ms, 1) };
                let pending = PendingResponse { channel, response: resp, full };
                self.attach_route_byte_permit(id, pending, permits, Some(timeout_ms))
            },
        }
    }
}

impl PendingResponse {
    /// Step after a share of the byte budget was asked for.
    pub open spec fn after_permit(self, wait: PermitWait, outcome: PermitOutcome) -> RouteStep {
        match outcome {
            PermitOutcome::Acquired(permit) => RouteStep::TrySend(
                PendingResponse { response: self.response.with_permit(permit), ..self },
            ),
            PermitOutcome::Unavailable => RouteStep::Finish(RouteResult::QueueFullHigh),
            PermitOutcome::Closed => if wait == PermitWait::Try {
                RouteStep::Finish(RouteResult::QueueFullHigh)
            } else {
                RouteStep::Finish(RouteResult::ChannelClosed)
            },
        }
    }

    /// Goes on after a share of the byte budget was asked for.
    pub fn on_permit(self, wait: PermitWait, outcome: PermitOutcome) -> (res: RouteStep)
        ensures
            res == self.after_permit(wait, outcome),
    {
        match outcome {
            PermitOutcome::Acquired(permit) => {
                let response = self.response.attach(permit);
                RouteStep::TrySend(
                    PendingResponse { channel: self.channel, response, full: self.full },
                )
            },
            PermitOutcome::Unavailable => RouteStep::Finish(RouteResult::QueueFullHigh),
            PermitOutcome::Closed => match wait {
                PermitWait::Try => RouteStep::Finish(RouteResult::QueueFullHigh),
                _ => RouteStep::Finish(RouteResult::ChannelClosed),
            },
        }
    }
}

/// How much of a channel is in use, in percent.
fn channel_used_pct(channel_capacity: usize, free: usize) -> (res: u8)
    ensures
        res == used_pct(channel_capacity, free),
        res <= 100,
{
    if channel_capacity == 0 {
        return 100;
    }
    let used: usize = channel_capacity.saturating_sub(free);
    let hundredfold: usize = match used.checked_mul(100) {
        Some(product) => product,
        None => usize::MAX,
    };
    let quotient: usize = hundredfold / channel_capacity;
    assert(quotient <= 100) by {
        assert(hundredfold <= 100 * channel_capacity);
        assert(hundredfold as int / (channel_capacity as int) <= 100) by (nonlinear_arith)
            requires
                hundredfold <= 100 * channel_capacity,
                channel_capacity > 0,
        ;
    }
    quotient as u8
}

impl FullPolicy {
    /// Step after the first attempt on a channel, under the settings of that time.
    pub open spec fn after_try_send(
        self,
        backpressure: RouteBackpressure,
        outcome: TrySendOutcome,
    ) -> AfterTrySend {
        match outcome {
            TrySendOutcome::Sent => AfterTrySend::Finish(RouteResult::Routed),
            TrySendOutcome::Closed => AfterTrySend::Finish(RouteResult::ChannelClosed),
            TrySendOutcome::Full { free } => {
                let high_profile = backpressure.highly_used(free);
                match self {
                    FullPolicy::Drop => AfterTrySend::Finish(RouteResult::QueueFullBase),
                    FullPolicy::Adaptive { base_timeout_ms } => AfterTrySend::Send(
                        SendWait {
                            timeout_ms: if high_profile {
                                greater(backpressure.high_timeout_ms, base_timeout_ms)
                            } else {
                                base_timeout_ms
                            },
                            high_profile,
                        },
                    ),
                    FullPolicy::Fixed { timeout_ms } => AfterTrySend::Send(
                        SendWait { timeout_ms, high_profile },
                    ),
                }
            },
        }
    }
}

impl ConnRegistry {
    /// Goes on after the first attempt on a channel. What a full channel means depends on the settings
    /// of now, whatever they were when the response came.
    pub fn on_try_send(&self, full: FullPolicy, outcome: TrySendOutcome) -> (res: AfterTrySend)
        ensures
            res == full.after_try_send(self@.backpressure, outcome),
    {
        match outcome {
            TrySendOutcome::Sent => AfterTrySend::Finish(RouteResult::Routed),
            TrySendOutcome::Closed => AfterTrySend::Finish(RouteResult::ChannelClosed),
            TrySendOutcome::Full { free } => {
                let high_profile = channel_used_pct(self.backpressure.channel_capacity, free)
                    >= self.backpressure.watermark_pct();
                match full {
                    FullPolicy::Drop => AfterTrySend::Finish(RouteResult::QueueFullBase),
                    FullPolicy::Adaptive { base_timeout_ms } => {
                        let timeout_ms = if high_profile {
                            max_of(self.backpressure.high_timeout_ms, base_timeout_ms)
                        } else {
                            base_timeout_ms
                        };
                        AfterTrySend::Send(SendWait { timeout_ms, high_profile })
                    },
                    FullPolicy::Fixed { timeout_ms } => AfterTrySend::Send(
                        SendWait { timeout_ms, high_profile },
                    ),
                }
            },
        }
    }
}

impl SendWait {
    /// How a response fared that waited for room.
    pub open spec fn after_send(self, outcome: SendOutcome) -> RouteResult {
        match outcome {
            SendOutcome::Sent => RouteResult::Routed,
            SendOutcome::Closed => RouteResult::ChannelClosed,
            SendOutcome::TimedOut => if self.high_profile {
                RouteResult::QueueFullHigh
            } else {
                RouteResult::QueueFullBase
            },
        }
    }

    /// Concludes after a wait for room.
    pub fn on_send(self, outcome: SendOutcome) -> (res: RouteResult)
        ensures
            res == self.after_send(outcome),
    {
        match outcome {
            SendOutcome::Sent => RouteResult::Routed,
            SendOutcome::Closed => RouteResult::ChannelClosed,
            SendOutcome::TimedOut => {
                if self.high_profile {
                    RouteResult::QueueFullHigh
                } else {
                    RouteResult::QueueFullBase
                }
            },
        }
    }
}

/// The response of a step that puts one into a channel.
pub open spec fn sent_by(step: RouteStep) -> Option<MeResponse> {
    match step {
        RouteStep::TrySend(pending) => Some(pending.response),
        _ => None,
    }
}

impl RegistryState {
    /// Whether a step is the first of one of the three ways to hand a response over.
    pub open spec fn is_first_step(
        self,
        step: RouteStep,
        id: u64,
        response: MeResponse,
        permits: u32,
        timeout_ms: u64,
    ) -> bool {
        ||| step == self.route(id, response, permits)
        ||| step == self.route_nowait(id, response, permits)
        ||| step == self.route_with_timeout(id, response, permits, timeout_ms)
    }
}

/// Data reach a channel only with a share of the byte budget, whichever way they are handed over and
/// whatever comes of asking for the share.
pub proof fn law_data_travel_with_a_permit(
    state: RegistryState,
    id: u64,
    response: MeResponse,
    permits: u32,
    timeout_ms: u64,
    outcome: PermitOutcome,
)
    ensures
        forall|step: RouteStep| #[trigger]
            state.is_first_step(step, id, response, permits, timeout_ms) ==> {
                &&& sent_by(step) matches Some(sent) ==> sent == response && !sent.needs_permit()
                &&& step matches RouteStep::Acquire(request, pending) ==> {
                    &&& request.permits == permits
                    &&& request.budget == state.budgets[id]
                    &&& sent_by(pending.after_permit(request.wait, outcome)) matches Some(sent)
                        ==> outcome matches PermitOutcome::Acquired(permit) && sent
                        == response.with_permit(permit) && !sent.needs_permit()
                }
            },
{
}

/// Nothing is asked for and nothing is sent on behalf of a connection that is not known.
pub proof fn law_unknown_connection_gets_nothing(
    state: RegistryState,
    id: u64,
    response: MeResponse,
    permits: u32,
    timeout_ms: u64,
)
    requires
        !state.routes.contains_key(id),
    ensures
        forall|step: RouteStep| #[trigger]
            state.is_first_step(step, id, response, permits, timeout_ms) ==> step
                == RouteStep::Finish(RouteResult::NoConn),
{
}

/// Handing a response over without waiting never waits: neither for a share of the byte budget nor for
/// room in the channel.
pub proof fn law_nowait_never_waits(
    state: RegistryState,
    id: u64,
    response: MeResponse,
    permits: u32,
    outcome: PermitOutcome,
    later: RouteBackpressure,
    attempt: TrySendOutcome,
)
    ensures
        state.route_with_timeout(id, response, permits, 0) == state.route_nowait(
            id,
            response,
            permits,
        ),
        match state.route_nowait(id, response, permits) {
            RouteStep::Finish(_) => true,
            RouteStep::TrySend(pending) => pending.full.after_try_send(later, attempt) is Finish,
            RouteStep::Acquire(request, pending) => {
                &&& request.wait == PermitWait::Try
                &&& pending.after_permit(request.wait, outcome) matches RouteStep::TrySend(ready)
                    ==> ready.full.after_try_send(later, attempt) is Finish
            },
        },
{
}

/// A wait for room has a limit of at least a millisecond, a highly used channel is waited for at least
/// as long as another one, and a response that waited in vain is told from how highly the channel was
/// used. The settings that count for all of it but the least wait are those of the time at which the
/// channel was full.
pub proof fn law_full_channel_is_waited_for(
    state: RegistryState,
    id: u64,
    response: MeResponse,
    permits: u32,
    outcome: PermitOutcome,
    later: RouteBackpressure,
    free: usize,
    busier: usize,
)
    requires
        busier <= free,
    ensures
        ({
            let least = greater(state.backpressure.base_timeout_ms, 1);
            let full = FullPolicy::Adaptive { base_timeout_ms: least };
            &&& state.route(id, response, permits) matches RouteStep::TrySend(pending)
                ==> pending.full == full
            &&& state.route(id, response, permits) matches RouteStep::Acquire(request, pending) ==> (
            pending.after_permit(request.wait, outcome) matches RouteStep::TrySend(ready)
                ==> ready.full == full)
            &&& full.after_try_send(
                later,
                TrySendOutcome::Full { free },
            ) matches AfterTrySend::Send(wait)
            &&& full.after_try_send(
                later,
                TrySendOutcome::Full { free: busier },
            ) matches AfterTrySend::Send(longer)
            &&& 1 <= least <= wait.timeout_ms <= longer.timeout_ms
            &&& wait.timeout_ms == (if later.highly_used(free) {
                greater(later.high_timeout_ms, least)
            } else {
                least
            })
            &&& wait.high_profile ==> longer.high_profile
            &&& wait.after_send(SendOutcome::TimedOut) == (if later.highly_used(free) {
                RouteResult::QueueFullHigh
            } else {
                RouteResult::QueueFullBase
            })
        }),
{
    let capacity = later.channel_capacity;
    if capacity > 0 {
        lemma_less_room_is_more_use(capacity, free, busier);
    }
}

/// The less room a channel has, the more of it is in use.
proof fn lemma_less_room_is_more_use(capacity: usize, free: usize, busier: usize)
    requires
        busier <= free,
        capacity > 0,
    ensures
        used_pct(capacity, free) <= used_pct(capacity, busier),
{
    let low: int = if free < capacity {
        capacity - free
    } else {
        0
    };
    let high: int = if busier < capacity {
        capacity - busier
    } else {
        0
    };
    let from: int = if low * 100 <= usize::MAX {
        low * 100
    } else {
        usize::MAX as int
    };
    let to: int = if high * 100 <= usize::MAX {
        high * 100
    } else {
        usize::MAX as int
    };
    let divisor: int = capacity as int;
    assert(from / divisor <= to / divisor) by (nonlinear_arith)
        requires
            from <= to,
            divisor > 0,
    ;
}

} // verus!

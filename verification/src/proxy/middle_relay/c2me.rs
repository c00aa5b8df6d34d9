//! Queueing what goes from a client to the middle proxy.
//!
//! A payload waits in a bounded queue and holds a share of a byte budget while it does.

use vstd::prelude::*;

use crate::proxy::ProxyError;
use crate::stats::counters::{went_up, MeCounters, MeTelemetryLevel, Stats};
use crate::time::Duration;

verus! {

/// Sizes of the queue and of the byte budget.
#[derive(Debug, Clone, Copy, PartialEq, Eq, Structural)]
pub struct C2MeTuning {
    /// Number of commands after which a sender lets others go first.
    pub sender_fairness_budget: usize,
    /// Bytes that one permit of the byte budget stands for.
    pub queued_byte_permit_unit: usize,
    /// Permits of the byte budget for each place in the queue.
    pub queued_permits_per_slot: usize,
    /// Free places in the queue at or below which a sender lets others go first.
    pub soft_pressure_min_free_slots: usize,
}

/// What goes through the queue.
#[derive(Debug, PartialEq, Eq)]
pub enum C2MeCommand {
    /// A payload, with the share of the byte budget that it holds, known by a number.
    Data { payload: Vec<u8>, flags: u32, permit: u64 },
    Close,
}

/// The quotient of two numbers, rounded up.
pub open spec fn quotient_up(value: int, unit: int) -> int {
    (value + unit - 1) / unit
}

/// Permits that a payload needs.
pub open spec fn payload_permits(payload_len: usize, unit: usize) -> int {
    let units = quotient_up(
        if payload_len < 1 {
            1
        } else {
            payload_len as int
        },
        unit as int,
    );
    if units > u32::MAX {
        u32::MAX as int
    } else {
        units
    }
}

/// Permits of the byte budget for a queue.
pub open spec fn permit_budget(
    channel_capacity: usize,
    frame_limit: usize,
    tuning: C2MeTuning,
) -> int {
    let for_slots = channel_capacity * tuning.queued_permits_per_slot;
    let slots = if for_slots > usize::MAX {
        usize::MAX as int
    } else {
        for_slots
    };
    let frame = payload_permits(frame_limit, tuning.queued_byte_permit_unit);
    if slots < frame {
        frame
    } else if slots < 1 {
        1
    } else {
        slots
    }
}

impl C2MeTuning {
    /// Whether a sender with so many commands sent should let others go first.
    pub open spec fn yields(self, sent_since_yield: usize, has_backlog: bool) -> bool {
        has_backlog && sent_since_yield >= self.sender_fairness_budget
    }

    /// Whether a sender should let others go first.
    pub fn should_yield_c2me_sender(&self, sent_since_yield: usize, has_backlog: bool) -> (res: bool)
        ensures
            res == self.yields(sent_since_yield, has_backlog),
    {
        has_backlog && sent_since_yield >= self.sender_fairness_budget
    }

    /// Permits that a payload needs.
    pub fn c2me_payload_permits(&self, payload_len: usize) -> (res: u32)
        requires
            self.queued_byte_permit_unit > 0,
        ensures
            res == payload_permits(payload_len, self.queued_byte_permit_unit),
            res >= 1,
    {
        let len: usize = if payload_len < 1 {
            1
        } else {
            payload_len
        };
        let unit = self.queued_byte_permit_unit;
        let whole: usize = len / unit;
        let units: usize = if len % unit == 0 {
            whole
        } else {
            assert(whole < usize::MAX) by {
                assert(unit == 1 ==> len % unit == 0);
                assert(unit > 1 ==> (len as int) / (unit as int) < len) by (nonlinear_arith)
                    requires
                        len >= 1,
                        unit > 0,
                ;
            }
            whole + 1
        };
        proof {
            lemma_quotient_up(len as int, unit as int);
        }
        if units as u64 > u32::MAX as u64 {
            u32::MAX
        } else {
            units as u32
        }
    }

    /// Permits of the byte budget for a queue: enough for every place, and for the longest frame.
    pub fn c2me_queued_permit_budget(&self, channel_capacity: usize, frame_limit: usize) -> (res: usize)
        requires
            self.queued_byte_permit_unit > 0,
        ensures
            res == permit_budget(channel_capacity, frame_limit, *self),
    {
        let slots: usize = match channel_capacity.checked_mul(self.queued_permits_per_slot) {
            Some(product) => product,
            None => usize::MAX,
        };
        let frame: usize = self.c2me_payload_permits(frame_limit) as usize;
        if slots < frame {
            frame
        } else if slots < 1 {
            1
        } else {
            slots
        }
    }
}

/// Rounding up is adding one to the whole part where something is left over.
proof fn lemma_quotient_up(value: int, unit: int)
    requires
        value >= 1,
        unit >= 1,
    ensures
        quotient_up(value, unit) == (if value % unit == 0 {
            value / unit
        } else {
            value / unit + 1
        }),
        quotient_up(value, unit) >= 1,
        quotient_up(value, unit) * unit >= value,
        (quotient_up(value, unit) - 1) * unit < value,
{
    let whole = value / unit;
    let rest = value % unit;
    vstd::arithmetic::div_mod::lemma_fundamental_div_mod(value, unit);
    vstd::arithmetic::div_mod::lemma_mod_bound(value, unit);
    let expected: int = if rest == 0 {
        whole
    } else {
        whole + 1
    };
    let over: int = if rest == 0 {
        unit - 1
    } else {
        rest - 1
    };
    assert(value + unit - 1 == expected * unit + over) by (nonlinear_arith)
        requires
            value == unit * whole + rest,
            rest == 0 ==> expected == whole && over == unit - 1,
            rest != 0 ==> expected == whole + 1 && over == rest - 1,
    ;
    vstd::arithmetic::div_mod::lemma_fundamental_div_mod_converse(
        value + unit - 1,
        unit,
        expected,
        over,
    );
    assert(expected * unit >= value && (expected - 1) * unit < value) by (nonlinear_arith)
        requires
            value + unit - 1 == expected * unit + over,
            0 <= over < unit,
    ;
    assert(expected >= 1) by (nonlinear_arith)
        requires
            expected * unit >= value,
            value >= 1,
            unit >= 1,
    ;
}

/// What came of asking for a share of the byte budget.
#[derive(Debug, Clone, Copy, PartialEq, Eq, Structural)]
pub enum PayloadPermitOutcome {
    Acquired(u64),
    Closed,
    TimedOut,
}

/// The share of the byte budget that a payload needs, and how long to wait for it.
#[derive(Debug, Clone, Copy, PartialEq, Eq, Structural)]
pub struct PayloadPermitRequest {
    pub permits: u32,
    pub timeout: Option<Duration>,
}

/// Counters after a send that timed out.
pub open spec fn timeout_counted(stats: Stats) -> Stats {
    Stats {
        me: if stats.policy.me_allows_normal() {
            MeCounters {
                c2me_send_timeout_total: stats.me.c2me_send_timeout_total.wrapping_add(1),
                ..stats.me
            }
        } else {
            stats.me
        },
        ..stats
    }
}

/// Counters after a send that met a full queue.
pub open spec fn full_counted(stats: Stats) -> Stats {
    Stats {
        me: if stats.policy.me_allows_normal() {
            MeCounters {
                c2me_send_full_total: stats.me.c2me_send_full_total.wrapping_add(1),
                c2me_send_high_water_total: stats.me.c2me_send_high_water_total.wrapping_add(1),
                ..stats.me
            }
        } else {
            stats.me
        },
        ..stats
    }
}

/// Starts to get a payload its share of the byte budget; [`on_payload_permit`] concludes.
pub fn acquire_c2me_payload_permit(
    tuning: &C2MeTuning,
    payload_len: usize,
    send_timeout: Option<Duration>,
) -> (res: PayloadPermitRequest)
    requires
        tuning.queued_byte_permit_unit > 0,
    ensures
        res.permits == payload_permits(payload_len, tuning.queued_byte_permit_unit),
        res.timeout == send_timeout,
{
    PayloadPermitRequest { permits: tuning.c2me_payload_permits(payload_len), timeout: send_timeout }
}

/// Concludes after a share of the byte budget was asked for.
pub fn on_payload_permit(outcome: PayloadPermitOutcome, stats: &mut Stats) -> (res: Result<
    u64,
    ProxyError,
>)
    ensures
        match outcome {
            PayloadPermitOutcome::Acquired(permit) => res == Ok::<u64, ProxyError>(permit),
            PayloadPermitOutcome::Closed => res matches Err(ProxyError::Proxy(text)) && text@
                == "ME sender byte budget closed"@,
            PayloadPermitOutcome::TimedOut => res matches Err(ProxyError::Proxy(text)) && text@
                == "ME sender byte budget timeout"@,
        },
        *final(stats) == (if outcome == PayloadPermitOutcome::TimedOut {
            timeout_counted(*old(stats))
        } else {
            *old(stats)
        }),
{
    match outcome {
        PayloadPermitOutcome::Acquired(permit) => Ok(permit),
        PayloadPermitOutcome::Closed => Err(
            ProxyError::Proxy("ME sender byte budget closed".to_owned()),
        ),
        PayloadPermitOutcome::TimedOut => {
            stats.increment_me_c2me_send_timeout_total();
            Err(ProxyError::Proxy("ME sender byte budget timeout".to_owned()))
        },
    }
}

/// What came of putting a command into the queue without waiting.
#[derive(Debug, PartialEq, Eq)]
pub enum QueueOutcome {
    Queued,
    /// The queue is closed; the command came back.
    Closed(C2MeCommand),
    /// The queue was full; the command came back, and later the queue had so many free places.
    Full(C2MeCommand, usize),
}

/// What came of waiting for a place in the queue.
#[derive(Debug, Clone, Copy, PartialEq, Eq, Structural)]
pub enum PlaceOutcome {
    Reserved,
    Closed,
    TimedOut,
}

/// What is to be done for a command.
#[derive(Debug, PartialEq, Eq)]
pub enum EnqueueStep {
    /// Nothing: the command is in the queue.
    Done,
    /// Nothing: the command is not in the queue.
    Failed(C2MeCommand),
    /// Note the pressure, let others go first if asked to, and wait for a place, then call
    /// [`on_place`].
    Reserve { command: C2MeCommand, yield_first: bool, timeout: Option<Duration> },
    /// Put the command into the place that was found.
    Send(C2MeCommand),
}

/// Step after a command was put into the queue, or was not.
pub open spec fn after_queueing(
    tuning: C2MeTuning,
    outcome: QueueOutcome,
    send_timeout: Option<Duration>,
) -> EnqueueStep {
    match outcome {
        QueueOutcome::Queued => EnqueueStep::Done,
        QueueOutcome::Closed(command) => EnqueueStep::Failed(command),
        QueueOutcome::Full(command, free) => EnqueueStep::Reserve {
            command,
            yield_first: free <= tuning.soft_pressure_min_free_slots,
            timeout: send_timeout,
        },
    }
}

/// Step after a wait for a place in the queue.
pub open spec fn after_place(command: C2MeCommand, outcome: PlaceOutcome) -> EnqueueStep {
    if outcome == PlaceOutcome::Reserved {
        EnqueueStep::Send(command)
    } else {
        EnqueueStep::Failed(command)
    }
}

/// Goes on after a command was put into the queue, or was not.
pub fn enqueue_c2me_command_in(
    tuning: &C2MeTuning,
    outcome: QueueOutcome,
    send_timeout: Option<Duration>,
    stats: &mut Stats,
) -> (res: EnqueueStep)
    ensures
        res == after_queueing(*tuning, outcome, send_timeout),
        *final(stats) == (if outcome is Full {
            full_counted(*old(stats))
        } else {
            *old(stats)
        }),
{
    match outcome {
        QueueOutcome::Queued => EnqueueStep::Done,
        QueueOutcome::Closed(command) => EnqueueStep::Failed(command),
        QueueOutcome::Full(command, free) => {
            stats.increment_me_c2me_send_full_total();
            stats.increment_me_c2me_send_high_water_total();
            let yield_first = free <= tuning.soft_pressure_min_free_slots;
            EnqueueStep::Reserve { command, yield_first, timeout: send_timeout }
        },
    }
}

/// Goes on after a wait for a place in the queue.
pub fn on_place(command: C2MeCommand, outcome: PlaceOutcome, stats: &mut Stats) -> (res: EnqueueStep)
    ensures
        res == after_place(command, outcome),
        *final(stats) == (if outcome == PlaceOutcome::Reserved {
            *old(stats)
        } else {
            timeout_counted(*old(stats))
        }),
{
    match outcome {
        PlaceOutcome::Reserved => EnqueueStep::Send(command),
        _ => {
            stats.increment_me_c2me_send_timeout_total();
            EnqueueStep::Failed(command)
        },
    }
}

/// The permits of a payload cover its bytes, unless there are more than can be counted, and one permit
/// less would not. Every payload needs at least one.
pub proof fn law_permits_cover_the_payload(payload_len: usize, unit: usize)
    requires
        unit > 0,
    ensures
        1 <= payload_permits(payload_len, unit) <= u32::MAX,
        payload_permits(payload_len, unit) < u32::MAX ==> payload_permits(payload_len, unit) * unit
            >= payload_len,
        payload_len > 0 ==> (payload_permits(payload_len, unit) - 1) * unit < payload_len,
{
    let len: int = if payload_len < 1 {
        1
    } else {
        payload_len as int
    };
    lemma_quotient_up(len, unit as int);
    let units = quotient_up(len, unit as int);
    if units > u32::MAX {
        let most = u32::MAX as int - 1;
        let step = unit as int;
        assert(most * step <= (units - 1) * step) by (nonlinear_arith)
            requires
                most <= units - 1,
                step >= 0,
        ;
    }
}

/// A longer payload needs no fewer permits.
pub proof fn law_longer_payload_needs_no_fewer_permits(shorter: usize, longer: usize, unit: usize)
    requires
        unit > 0,
        shorter <= longer,
    ensures
        payload_permits(shorter, unit) <= payload_permits(longer, unit),
{
    let a: int = if shorter < 1 {
        1
    } else {
        shorter as int
    };
    let b: int = if longer < 1 {
        1
    } else {
        longer as int
    };
    vstd::arithmetic::div_mod::lemma_div_is_ordered(
        a + unit as int - 1,
        b + unit as int - 1,
        unit as int,
    );
}

/// Every payload within the frame limit can get its permits from the budget of an empty queue.
pub proof fn law_budget_fits_every_frame(
    channel_capacity: usize,
    frame_limit: usize,
    payload_len: usize,
    tuning: C2MeTuning,
)
    requires
        tuning.queued_byte_permit_unit > 0,
        payload_len <= frame_limit,
    ensures
        payload_permits(payload_len, tuning.queued_byte_permit_unit) <= permit_budget(
            channel_capacity,
            frame_limit,
            tuning,
        ),
        permit_budget(channel_capacity, frame_limit, tuning) >= 1,
{
    law_longer_payload_needs_no_fewer_permits(
        payload_len,
        frame_limit,
        tuning.queued_byte_permit_unit,
    );
    law_permits_cover_the_payload(frame_limit, tuning.queued_byte_permit_unit);
}

/// An empty payload needs one permit, as the shortest does.
pub proof fn law_empty_payload_needs_one_permit(unit: usize)
    requires
        unit > 0,
    ensures
        payload_permits(0, unit) == 1,
        payload_permits(1, unit) == 1,
{
    lemma_quotient_up(1, unit as int);
    let units = quotient_up(1, unit as int);
    assert(units == 1) by (nonlinear_arith)
        requires
            (units - 1) * unit < 1,
            units >= 1,
            unit > 0,
    ;
}

/// The budget of a queue is the least that covers each of three needs: the permits of all its places, as
/// far as a machine word goes, those of the longest frame, and one.
pub proof fn law_budget_is_the_least_that_covers(
    channel_capacity: usize,
    frame_limit: usize,
    tuning: C2MeTuning,
    budget: int,
)
    requires
        tuning.queued_byte_permit_unit > 0,
        budget == permit_budget(channel_capacity, frame_limit, tuning),
    ensures
        budget >= 1,
        budget >= payload_permits(frame_limit, tuning.queued_byte_permit_unit),
        budget >= channel_capacity * tuning.queued_permits_per_slot || budget == usize::MAX,
        budget == 1 || budget == payload_permits(frame_limit, tuning.queued_byte_permit_unit) || budget
            == channel_capacity * tuning.queued_permits_per_slot || budget == usize::MAX
            && channel_capacity * tuning.queued_permits_per_slot > usize::MAX,
{
    law_permits_cover_the_payload(frame_limit, tuning.queued_byte_permit_unit);
    assert(payload_permits(frame_limit, tuning.queued_byte_permit_unit) <= usize::MAX);
}

/// A sender lets others go first once it has used up its budget and others wait, and neither before nor
/// where nobody waits.
pub proof fn law_sender_yields_after_its_budget(tuning: C2MeTuning, sent: usize)
    ensures
        !tuning.yields(sent, false),
        tuning.yields(sent, true) <==> sent >= tuning.sender_fairness_budget,
{
}

/// A command that is in the queue is done with. One whose queue is closed has failed, and one whose queue
/// is full waits for a place, at most as long as it may and behind others where there are few free
/// places. In both cases it is the command that came back.
pub proof fn law_command_goes_on_as_it_came_back(
    tuning: C2MeTuning,
    command: C2MeCommand,
    free: usize,
    limit: Option<Duration>,
)
    ensures
        after_queueing(tuning, QueueOutcome::Queued, limit) == EnqueueStep::Done,
        after_queueing(tuning, QueueOutcome::Closed(command), limit) == EnqueueStep::Failed(command),
        after_queueing(tuning, QueueOutcome::Full(command, free), limit) matches EnqueueStep::Reserve {
            command: kept,
            yield_first,
            timeout,
        } && kept == command && timeout == limit && (yield_first <==> free
            <= tuning.soft_pressure_min_free_slots),
{
}

/// A command is sent if a place was found for it, and fails, as it is, in every other case.
pub proof fn law_command_is_sent_into_its_place(command: C2MeCommand)
    ensures
        after_place(command, PlaceOutcome::Reserved) == EnqueueStep::Send(command),
        after_place(command, PlaceOutcome::Closed) == EnqueueStep::Failed(command),
        after_place(command, PlaceOutcome::TimedOut) == EnqueueStep::Failed(command),
{
}

/// A send that timed out and one that met a full queue are counted once each, the latter also as one at
/// the high-water mark, unless the middle-proxy side is silent. Nothing else is counted.
pub proof fn law_sends_are_counted(stats: Stats)
    ensures
        ({
            let after = timeout_counted(stats);
            &&& went_up(
                stats.me.c2me_send_timeout_total,
                after.me.c2me_send_timeout_total,
                if stats.policy.me_level == MeTelemetryLevel::Silent {
                    0
                } else {
                    1
                },
            )
            &&& after == (Stats {
                me: MeCounters {
                    c2me_send_timeout_total: after.me.c2me_send_timeout_total,
                    ..stats.me
                },
                ..stats
            })
        }),
        ({
            let after = full_counted(stats);
            let by: int = if stats.policy.me_level == MeTelemetryLevel::Silent {
                0
            } else {
                1
            };
            &&& went_up(stats.me.c2me_send_full_total, after.me.c2me_send_full_total, by)
            &&& went_up(stats.me.c2me_send_high_water_total, after.me.c2me_send_high_water_total, by)
            &&& after == (Stats {
                me: MeCounters {
                    c2me_send_full_total: after.me.c2me_send_full_total,
                    c2me_send_high_water_total: after.me.c2me_send_high_water_total,
                    ..stats.me
                },
                ..stats
            })
        }),
{
}

} // verus!

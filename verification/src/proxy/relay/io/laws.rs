//! What holds of every read and every write, whatever comes of their steps.

use vstd::prelude::*;

use super::read::{
    AfterSettle, ConsumeStage, QuotaSleepStage, ReadOutcome, ReadReturn, ReadStage, ReadStep,
    ReserveStage, SleepStage,
};
use super::write::{WriteEnd, WriteOutcome, WriteReturn, WriteStage, WriteStep};
use super::{IoState, LeaseGrant, QuotaCheck, RateWait};
use crate::time::Instant;

verus! {

/// What happens between two steps of a read.
pub enum ReadEvent {
    Start(usize),
    Consumed(ConsumeStage, LeaseGrant, Instant),
    Slept(SleepStage, bool),
    Tried(ReserveStage, bool, Instant),
    QuotaSlept(QuotaSleepStage, bool),
    WasRead(ReadStage, ReadOutcome, QuotaCheck, Instant),
}

/// What happens between two steps of a write.
pub enum WriteEvent {
    Start(usize),
    Granted(super::write::ConsumeStage, LeaseGrant, Instant),
    Slept(super::write::SleepStage, bool),
    Tried(super::write::ReserveStage, bool, Instant),
    QuotaSlept(super::write::QuotaSleepStage, bool),
    WasWritten(WriteStage, WriteOutcome, QuotaCheck, Instant),
}

impl ReadEvent {
    /// State and step after the event.
    pub open spec fn applied(self, state: IoState) -> (IoState, ReadStep) {
        match self {
            ReadEvent::Start(remaining) => state.poll_read(remaining),
            ReadEvent::Consumed(stage, grant, now) => state.consumed(stage, grant, now),
            ReadEvent::Slept(stage, elapsed) => state.slept(stage, elapsed),
            ReadEvent::Tried(stage, contended, now) => state.tried(stage, contended, now),
            ReadEvent::QuotaSlept(stage, elapsed) => state.quota_slept(stage, elapsed),
            ReadEvent::WasRead(stage, outcome, check, now) => state.was_read(
                stage,
                outcome,
                check,
                now,
            ),
        }
    }

    /// Bytes of the quota that were reserved before the event.
    pub open spec fn reserved(self) -> int {
        match self {
            ReadEvent::WasRead(stage, _, _, _) => stage.reserved as int,
            _ => 0,
        }
    }

    /// Bytes that the event brought.
    pub open spec fn bytes(self) -> int {
        match self {
            ReadEvent::WasRead(_, ReadOutcome::Ready(n), _, _) => n as int,
            _ => 0,
        }
    }
}

impl WriteEvent {
    /// State and step after the event.
    pub open spec fn applied(self, state: IoState) -> (IoState, WriteStep) {
        match self {
            WriteEvent::Start(len) => state.poll_write(len),
            WriteEvent::Granted(stage, grant, now) => state.granted(stage, grant, now),
            WriteEvent::Slept(stage, elapsed) => state.write_slept(stage, elapsed),
            WriteEvent::Tried(stage, contended, now) => state.write_tried(stage, contended, now),
            WriteEvent::QuotaSlept(_, elapsed) => state.write_quota_slept(elapsed),
            WriteEvent::WasWritten(stage, outcome, check, now) => state.was_written(
                stage,
                outcome,
                check,
                now,
            ),
        }
    }

    /// Bytes of the quota that were reserved before the event.
    pub open spec fn reserved(self) -> int {
        match self {
            WriteEvent::WasWritten(stage, _, _, _) => stage.reserved as int,
            _ => 0,
        }
    }

    /// Bytes that the event took.
    pub open spec fn bytes(self) -> int {
        match self {
            WriteEvent::WasWritten(_, WriteOutcome::Ready(n), _, _) => n as int,
            _ => 0,
        }
    }

    /// Bytes of the traffic lease that were granted by the event or before.
    pub open spec fn granted(self) -> int {
        match self {
            WriteEvent::Start(_) => 0,
            WriteEvent::Granted(_, grant, _) => grant.granted as int,
            WriteEvent::Slept(stage, _) => match stage.after {
                super::write::AfterSleep::Proceed(_, granted) => granted as int,
                super::write::AfterSleep::Retry(_) => 0,
            },
            WriteEvent::Tried(stage, _, _) => stage.granted as int,
            WriteEvent::QuotaSlept(_, _) => 0,
            WriteEvent::WasWritten(stage, _, _, _) => stage.granted as int,
        }
    }
}

/// Bytes of the quota that are reserved for a step.
pub open spec fn read_reserves(step: ReadStep) -> int {
    match step {
        ReadStep::Read(stage) => stage.reserved as int,
        _ => 0,
    }
}

/// Bytes of the quota that are reserved for a step.
pub open spec fn write_reserves(step: WriteStep) -> int {
    match step {
        WriteStep::Write(stage) => stage.reserved as int,
        _ => 0,
    }
}

/// Bytes of the traffic lease that a step holds.
pub open spec fn write_holds(step: WriteStep) -> int {
    match step {
        WriteStep::Sleep(stage) => match stage.after {
            super::write::AfterSleep::Proceed(_, granted) => granted as int,
            super::write::AfterSleep::Retry(_) => 0,
        },
        WriteStep::Reserve(stage) => stage.granted as int,
        WriteStep::Write(stage) => stage.granted as int,
        _ => 0,
    }
}

/// Bytes that a step gives back to the traffic lease.
pub open spec fn write_returns(step: WriteStep) -> int {
    let refund = match step {
        WriteStep::Return(end) => end.lease_refund,
        WriteStep::QuotaSleep(stage) => stage.lease_refund,
        _ => None,
    };
    match refund {
        Some(bytes) => bytes as int,
        None => 0,
    }
}

/// A read uses up exactly the bytes of the quota that it brings: apart from what is reserved for the
/// next step, nothing is used up by an event but the bytes that a reservation was made for.
pub proof fn law_reading_uses_up_what_it_brings(state: IoState, event: ReadEvent)
    requires
        event.reserved() <= state.user.quota_used,
        event.reserved() > 0 ==> event.bytes() <= event.reserved(),
    ensures
        ({
            let (after, step) = event.applied(state);
            after.user.quota_used - read_reserves(step) == state.user.quota_used
                - event.reserved() + (if event.reserved() > 0 {
                event.bytes()
            } else {
                0
            })
        }),
{
}

/// A write uses up exactly the bytes of the quota that it takes.
pub proof fn law_writing_uses_up_what_it_takes(state: IoState, event: WriteEvent)
    requires
        event.reserved() <= state.user.quota_used,
        event.reserved() > 0 ==> event.bytes() <= event.reserved(),
    ensures
        ({
            let (after, step) = event.applied(state);
            after.user.quota_used - write_reserves(step) == state.user.quota_used
                - event.reserved() + (if event.reserved() > 0 {
                event.bytes()
            } else {
                0
            })
        }),
{
}

/// No read goes beyond the limit of the quota.
pub proof fn law_reading_stays_within_the_quota(state: IoState, event: ReadEvent, limit: u64)
    requires
        state.user.quota_used <= limit,
        event matches ReadEvent::Tried(stage, _, _) ==> stage.limit <= limit,
    ensures
        event.applied(state).0.user.quota_used <= limit,
{
}

/// No write goes beyond the limit of the quota.
pub proof fn law_writing_stays_within_the_quota(state: IoState, event: WriteEvent, limit: u64)
    requires
        state.user.quota_used <= limit,
        event matches WriteEvent::Tried(stage, _, _) ==> stage.limit <= limit,
    ensures
        event.applied(state).0.user.quota_used <= limit,
{
}

/// The steps of a relay with a quota try for a share of that quota, of at least a byte, of no more than
/// there is to read, and of no more than is left.
pub proof fn law_shares_fit(state: IoState, remaining: usize, len: usize, granted: u64)
    ensures
        state.begin_read(remaining).1 matches ReadStep::Reserve(stage) ==> {
            &&& Some(stage.limit) == state.io.quota_limit
            &&& 1 <= stage.desired <= remaining
            &&& stage.remaining == remaining
        },
        state.begin_write(len, granted).1 matches WriteStep::Reserve(stage) ==> {
            &&& Some(stage.limit) == state.io.quota_limit
            &&& 1 <= stage.desired <= len
            &&& stage.desired <= state.left(stage.limit)
            &&& stage.granted == granted
        },
{
}

/// What may be read or written under a quota is exactly what was reserved of it.
pub proof fn law_stream_gets_what_was_reserved(
    state: IoState,
    read: ReserveStage,
    write: super::write::ReserveStage,
    contended: bool,
    now: Instant,
)
    requires
        read.desired <= usize::MAX,
        write.desired <= usize::MAX,
    ensures
        state.tried(read, contended, now).1 matches ReadStep::Read(stage) ==> stage.limit
            == stage.reserved && stage.reserved == read.desired,
        state.write_tried(write, contended, now).1 matches WriteStep::Write(stage) ==> stage.len
            == stage.reserved && stage.reserved == write.desired,
{
}

/// A quota that is used up stays so: every later read and write is refused and changes nothing.
pub proof fn law_used_up_quota_refuses_everything(
    state: IoState,
    read: ReadEvent,
    write: WriteEvent,
    remaining: usize,
    len: usize,
)
    requires
        state.io.quota_exceeded,
    ensures
        read.applied(state).0.io.quota_exceeded,
        write.applied(state).0.io.quota_exceeded,
        state.poll_read(remaining) == (state, ReadStep::Return(ReadReturn::QuotaError)),
        state.poll_write(len) == (
            state,
            WriteStep::Return(WriteEnd { result: WriteReturn::QuotaError, lease_refund: None }),
        ),
{
}

/// A read or a write is refused only when the quota is used up, and is remembered as refused.
pub proof fn law_refusal_is_remembered(state: IoState, read: ReadEvent, write: WriteEvent)
    ensures
        read.applied(state).1 == ReadStep::Return(ReadReturn::QuotaError) ==> read.applied(
            state,
        ).0.io.quota_exceeded,
        write.applied(state).1 matches WriteStep::Return(end) ==> end.result
            == WriteReturn::QuotaError ==> write.applied(state).0.io.quota_exceeded,
{
}

/// What a traffic lease granted for a write is either held by the next step, or used by the bytes
/// that were written, or given back.
pub proof fn law_granted_bytes_are_used_or_given_back(state: IoState, event: WriteEvent)
    requires
        state.io.has_lease,
        event.bytes() <= event.granted(),
        event matches WriteEvent::Tried(stage, _, _) ==> stage.desired <= usize::MAX,
    ensures
        ({
            let (_, step) = event.applied(state);
            write_holds(step) + write_returns(step) + event.bytes() == event.granted()
        }),
{
}

/// A write asks the stream for no more than the traffic lease granted, and for no more than there is to
/// write.
pub proof fn law_write_stays_within_the_grant(
    state: IoState,
    stage: super::write::ConsumeStage,
    grant: LeaseGrant,
    now: Instant,
)
    requires
        grant.granted > 0,
    ensures
        ({
            let (_, step) = state.granted(stage, grant, now);
            &&& step matches WriteStep::Write(write) ==> write.len <= grant.granted && write.len
                <= stage.len
            &&& step matches WriteStep::Reserve(reserve) ==> reserve.desired <= grant.granted
                && reserve.desired <= stage.len
            &&& step matches WriteStep::Sleep(sleep) ==> sleep.after matches super::write::AfterSleep::Proceed(
                len,
                granted,
            ) && len <= grant.granted && len <= stage.len
        }),
{
}

/// A shaped relay reads nothing while it owes bytes to its traffic lease.
pub proof fn law_nothing_is_read_in_debt(state: IoState, remaining: usize)
    requires
        state.io.has_lease,
        state.io.c2s_rate_debt_bytes > 0,
        !state.io.quota_exceeded,
    ensures
        state.poll_read(remaining) == (
            state,
            ReadStep::Consume(
                ConsumeStage {
                    bytes: state.io.c2s_rate_debt_bytes,
                    after: AfterSettle::Begin(remaining),
                },
            ),
        ),
{
}

/// Bytes that were read are owed to the traffic lease, and what it grants is owed no more.
pub proof fn law_read_bytes_are_owed(
    state: IoState,
    stage: ReadStage,
    n: usize,
    check: QuotaCheck,
    grant: LeaseGrant,
    after: AfterSettle,
    now: Instant,
)
    requires
        state.io.has_lease,
        n > 0,
        state.io.c2s_rate_debt_bytes + n <= u64::MAX,
    ensures
        ({
            let owing = state.was_read(stage, ReadOutcome::Ready(n), check, now).0;
            let granted = owing.consumed(
                ConsumeStage { bytes: owing.io.c2s_rate_debt_bytes, after },
                grant,
                now,
            ).0;
            &&& owing.io.c2s_rate_debt_bytes == state.io.c2s_rate_debt_bytes + n
            &&& grant.granted <= owing.io.c2s_rate_debt_bytes
                ==> granted.io.c2s_rate_debt_bytes == owing.io.c2s_rate_debt_bytes - grant.granted
        }),
{
}

/// Only bytes that came or went count as traffic: an event without any leaves the counters of the relay
/// and of the user as they are, but for the quota.
pub proof fn law_only_bytes_count(state: IoState, read: ReadEvent, write: WriteEvent)
    requires
        read.bytes() == 0,
        write.bytes() == 0,
    ensures
        read.applied(state).0.io.counters == state.io.counters,
        read.applied(state).0.user == (crate::stats::users::UserStats {
            quota_used: read.applied(state).0.user.quota_used,
            ..state.user
        }),
        write.applied(state).0.io.counters == state.io.counters,
        write.applied(state).0.user == (crate::stats::users::UserStats {
            quota_used: write.applied(state).0.user.quota_used,
            ..state.user
        }),
{
}

/// A wait is told once, with the time since it began.
pub proof fn law_wait_is_told_once(wait: RateWait, begin: Instant, end: Instant, later: Instant)
    requires
        !wait.sleeping,
    ensures
        ({
            let armed = wait.armed(begin, true, false);
            &&& armed.observed(end) matches Some(told) && told.wait_ms == crate::time::millis_between(
                begin,
                end,
            ) && told.blocked_user
            &&& armed.woken().observed(later) is None
            &&& armed.armed(later, false, false) == armed
        }),
{
}

} // verus!

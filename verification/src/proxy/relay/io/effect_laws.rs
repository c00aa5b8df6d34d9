//! What each step of a read or a write does, told by the numbers that go in and come out.

use vstd::prelude::*;

use super::read::{
    AfterSettle, ConsumeStage, QuotaSleepStage, ReadOutcome, ReadReturn, ReadStage, ReadStep,
    ReserveStage, SleepStage,
};
use super::write::{AfterSleep, WriteEnd, WriteOutcome, WriteReturn, WriteStage, WriteStep};
use super::{
    became, fresh_io, ready, state_of, IoState, LeaseGrant, QuotaCheck, QuotaTuning, RateWait,
    SharedCounters, StatsIo,
};
use crate::stats::counters::{went_up, EventCounters, Stats};
use crate::stats::users::{UserStats, UserStatsHandle};
use crate::time::{is_millis, Instant};

verus! {

/// Of a quota, so many bytes are used up once those that were reserved beyond `n` are given back.
pub open spec fn is_refunded(before: u64, after: u64, reserved: u64, n: int) -> bool {
    if reserved <= n {
        after == before
    } else if before >= reserved - n {
        after == before - (reserved - n)
    } else {
        after == 0
    }
}

/// Nothing of the event counters changed but the bytes that went back to a quota: those that were
/// reserved beyond `n`.
pub open spec fn refund_is_counted(
    before: EventCounters,
    after: EventCounters,
    reserved: u64,
    n: int,
) -> bool {
    &&& after == (EventCounters {
        quota_refund_bytes_total: after.quota_refund_bytes_total,
        ..before
    })
    &&& went_up(
        before.quota_refund_bytes_total,
        after.quota_refund_bytes_total,
        if reserved > n {
            reserved - n
        } else {
            0
        },
    )
}

/// Bytes that came from the client are counted, with or without a quota and a lease: for the relay in the
/// direction to the server, and for the user where users are counted. The other direction and the
/// connections are not touched, and the relay counts as active.
pub proof fn law_read_bytes_are_counted(
    state: IoState,
    stage: ReadStage,
    n: usize,
    check: QuotaCheck,
    now: Instant,
)
    requires
        n > 0,
    ensures
        ({
            let after = state.was_read(stage, ReadOutcome::Ready(n), check, now).0;
            &&& went_up(state.io.counters.c2s_bytes, after.io.counters.c2s_bytes, n as int)
            &&& went_up(state.io.counters.c2s_ops, after.io.counters.c2s_ops, 1)
            &&& after.io.counters.s2c_bytes == state.io.counters.s2c_bytes
            &&& after.io.counters.s2c_ops == state.io.counters.s2c_ops
            &&& is_millis(after.io.counters.last_activity_ms, state.io.epoch, now)
            &&& state.user_enabled ==> went_up(
                state.user.octets_from,
                after.user.octets_from,
                n as int,
            ) && went_up(state.user.msgs_from, after.user.msgs_from, 1)
            &&& !state.user_enabled ==> after.user.octets_from == state.user.octets_from
                && after.user.msgs_from == state.user.msgs_from
            &&& after.user == (UserStats {
                octets_from: after.user.octets_from,
                msgs_from: after.user.msgs_from,
                quota_used: after.user.quota_used,
                ..state.user
            })
            &&& after.user_enabled == state.user_enabled
        }),
{
}

/// Bytes that went to the client are counted, with or without a quota and a lease: for the relay in the
/// direction to the client, and for the user where users are counted. The other direction and the
/// connections are not touched, and the relay counts as active.
pub proof fn law_written_bytes_are_counted(
    state: IoState,
    stage: WriteStage,
    n: usize,
    check: QuotaCheck,
    now: Instant,
)
    requires
        n > 0,
    ensures
        ({
            let after = state.was_written(stage, WriteOutcome::Ready(n), check, now).0;
            &&& went_up(state.io.counters.s2c_bytes, after.io.counters.s2c_bytes, n as int)
            &&& went_up(state.io.counters.s2c_ops, after.io.counters.s2c_ops, 1)
            &&& after.io.counters.c2s_bytes == state.io.counters.c2s_bytes
            &&& after.io.counters.c2s_ops == state.io.counters.c2s_ops
            &&& is_millis(after.io.counters.last_activity_ms, state.io.epoch, now)
            &&& state.user_enabled ==> went_up(
                state.user.octets_to,
                after.user.octets_to,
                n as int,
            ) && went_up(state.user.msgs_to, after.user.msgs_to, 1)
            &&& !state.user_enabled ==> after.user.octets_to == state.user.octets_to
                && after.user.msgs_to == state.user.msgs_to
            &&& after.user == (UserStats {
                octets_to: after.user.octets_to,
                msgs_to: after.user.msgs_to,
                quota_used: after.user.quota_used,
                ..state.user
            })
            &&& after.user_enabled == state.user_enabled
        }),
{
}

/// A write is reported as it came out, to the byte: so many bytes as the stream took, nothing yet, or a
/// failure. What the lease granted beyond those bytes goes back to it, and nothing where there is no
/// lease.
pub proof fn law_write_is_reported_as_it_came_out(
    state: IoState,
    stage: WriteStage,
    outcome: WriteOutcome,
    check: QuotaCheck,
    now: Instant,
)
    ensures
        state.was_written(stage, outcome, check, now).1 matches WriteStep::Return(end) && {
            let taken: int = match outcome {
                WriteOutcome::Ready(n) => n as int,
                _ => 0,
            };
            &&& outcome matches WriteOutcome::Ready(n) ==> end.result == WriteReturn::Done(n)
            &&& outcome is Pending ==> end.result == WriteReturn::Pending
            &&& outcome is Error ==> end.result == WriteReturn::StreamError
            &&& end.lease_refund is Some <==> state.io.has_lease && stage.granted > taken
            &&& end.lease_refund matches Some(bytes) ==> bytes + taken == stage.granted
        },
{
}

/// A read is reported as it came out: as done where the stream gave bytes or its end, as nothing yet, or
/// as a failure. Of a relay with a lease, the bytes are offered to the lease before the read ends, with
/// all that is owed.
pub proof fn law_read_is_reported_as_it_came_out(
    state: IoState,
    stage: ReadStage,
    outcome: ReadOutcome,
    check: QuotaCheck,
    now: Instant,
)
    ensures
        ({
            let (after, step) = state.was_read(stage, outcome, check, now);
            &&& outcome is Pending ==> step == ReadStep::Return(ReadReturn::Pending)
            &&& outcome is Error ==> step == ReadStep::Return(ReadReturn::StreamError)
            &&& outcome matches ReadOutcome::Ready(n) ==> {
                &&& n == 0 || !state.io.has_lease ==> step == ReadStep::Return(ReadReturn::Done)
                &&& n > 0 && state.io.has_lease ==> step == ReadStep::Consume(
                    ConsumeStage {
                        bytes: after.io.c2s_rate_debt_bytes,
                        after: AfterSettle::End,
                    },
                )
            }
        }),
{
}

/// What a read owes: with a lease, the bytes that it brought, on top of what was owed, as far as a machine
/// word goes. Without one nothing is added.
pub proof fn law_read_bytes_are_owed_to_the_lease(
    state: IoState,
    stage: ReadStage,
    outcome: ReadOutcome,
    check: QuotaCheck,
    now: Instant,
)
    ensures
        ({
            let after = state.was_read(stage, outcome, check, now).0;
            let n: int = match outcome {
                ReadOutcome::Ready(n) => n as int,
                _ => 0,
            };
            &&& !state.io.has_lease ==> after.io.c2s_rate_debt_bytes
                == state.io.c2s_rate_debt_bytes
            &&& state.io.has_lease && state.io.c2s_rate_debt_bytes + n <= u64::MAX
                ==> after.io.c2s_rate_debt_bytes == state.io.c2s_rate_debt_bytes + n
            &&& state.io.has_lease && state.io.c2s_rate_debt_bytes + n > u64::MAX
                ==> after.io.c2s_rate_debt_bytes == u64::MAX
        }),
{
}

/// What was reserved of the quota beyond the bytes that came or went is given back and counted as given
/// back. Nothing else is charged or given.
pub proof fn law_unused_reservation_is_given_back(
    state: IoState,
    read: ReadStage,
    got: ReadOutcome,
    write: WriteStage,
    took: WriteOutcome,
    check: QuotaCheck,
    now: Instant,
)
    ensures
        ({
            let after = state.was_read(read, got, check, now).0;
            let n: int = match got {
                ReadOutcome::Ready(n) => n as int,
                _ => 0,
            };
            &&& is_refunded(state.user.quota_used, after.user.quota_used, read.reserved, n)
            &&& refund_is_counted(state.events, after.events, read.reserved, n)
        }),
        ({
            let after = state.was_written(write, took, check, now).0;
            let n: int = match took {
                WriteOutcome::Ready(n) => n as int,
                _ => 0,
            };
            &&& is_refunded(state.user.quota_used, after.user.quota_used, write.reserved, n)
            &&& refund_is_counted(state.events, after.events, write.reserved, n)
        }),
{
}

/// Where nothing came or went, nothing changes but what goes back to the quota.
pub proof fn law_nothing_moved_changes_nothing(
    state: IoState,
    read: ReadStage,
    got: ReadOutcome,
    write: WriteStage,
    took: WriteOutcome,
    check: QuotaCheck,
    now: Instant,
)
    requires
        got matches ReadOutcome::Ready(n) ==> n == 0,
        took matches WriteOutcome::Ready(n) ==> n == 0,
    ensures
        ({
            let after = state.was_read(read, got, check, now).0;
            after == (IoState {
                user: UserStats { quota_used: after.user.quota_used, ..state.user },
                events: after.events,
                ..state
            })
        }),
        ({
            let after = state.was_written(write, took, check, now).0;
            after == (IoState {
                user: UserStats { quota_used: after.user.quota_used, ..state.user },
                events: after.events,
                ..state
            })
        }),
{
}

/// The quota is found used up after bytes came or went, if it is: after every read of a relay with a
/// quota, and after a write when it is time to look. It is never found so where there is none, and
/// what was found used up stays so. The bytes since the last look are counted until it is time.
pub proof fn law_quota_is_watched(
    state: IoState,
    read: ReadStage,
    write: WriteStage,
    n: usize,
    check: QuotaCheck,
    now: Instant,
)
    requires
        n > 0,
    ensures
        ({
            let after = state.was_read(read, ReadOutcome::Ready(n), check, now).0;
            let since = state.io.quota_bytes_since_check + n;
            &&& after.io.quota_exceeded <==> state.io.quota_exceeded || (
            state.io.quota_limit matches Some(limit) && after.user.quota_used >= limit)
            &&& read.left is None ==> after.io.quota_bytes_since_check
                == state.io.quota_bytes_since_check
            &&& read.left is Some && (check.immediate || since >= check.interval)
                ==> after.io.quota_bytes_since_check == 0
            &&& read.left is Some && !check.immediate && since < check.interval
                ==> after.io.quota_bytes_since_check == since
        }),
        ({
            let after = state.was_written(write, WriteOutcome::Ready(n), check, now).0;
            let since = state.io.quota_bytes_since_check + n;
            let due = check.immediate || since >= check.interval;
            let watched = state.io.quota_limit is Some && write.left is Some;
            &&& after.io.quota_exceeded <==> state.io.quota_exceeded || watched && due && (
            state.io.quota_limit matches Some(limit) && after.user.quota_used >= limit)
            &&& !watched ==> after.io.quota_bytes_since_check == state.io.quota_bytes_since_check
            &&& watched && due ==> after.io.quota_bytes_since_check == 0
            &&& watched && !due ==> after.io.quota_bytes_since_check == since
        }),
{
}

/// What a relay is, and whatever it waits for, stays as it is when bytes come or go; only a wait of the
/// direction to the client that has something to tell is told, where there is a lease.
pub proof fn law_the_rest_of_the_relay_stays(
    state: IoState,
    read: ReadStage,
    got: ReadOutcome,
    write: WriteStage,
    took: WriteOutcome,
    check: QuotaCheck,
    now: Instant,
)
    ensures
        ({
            let after = state.was_read(read, got, check, now).0.io;
            after == (StatsIo {
                counters: after.counters,
                c2s_rate_debt_bytes: after.c2s_rate_debt_bytes,
                quota_exceeded: after.quota_exceeded,
                quota_bytes_since_check: after.quota_bytes_since_check,
                ..state.io
            })
        }),
        ({
            let after = state.was_written(write, took, check, now).0.io;
            &&& after == (StatsIo {
                counters: after.counters,
                s2c_wait: after.s2c_wait,
                quota_exceeded: after.quota_exceeded,
                quota_bytes_since_check: after.quota_bytes_since_check,
                ..state.io
            })
            &&& after.s2c_wait != state.io.s2c_wait ==> {
                &&& state.io.has_lease
                &&& state.io.s2c_wait.started_at is Some
                &&& took matches WriteOutcome::Ready(n) && n > 0
            }
            &&& state.io.has_lease && (took matches WriteOutcome::Ready(n) && n > 0)
                ==> after.s2c_wait.started_at is None
            &&& after.s2c_wait.sleeping == state.io.s2c_wait.sleeping
        }),
{
}

/// A read into a buffer without room is left to the stream. Otherwise, without a quota, the whole room is
/// read into. With a quota that has something left, as much is tried for as fits both the room and what is
/// left; with one that has nothing left, the read is refused and the quota counts as used up.
pub proof fn law_read_begins_with_what_fits(state: IoState, remaining: usize)
    requires
        state.io.quota_limit matches Some(limit) ==> limit - state.user.quota_used <= usize::MAX,
    ensures
        ({
            let (after, step) = state.begin_read(remaining);
            &&& remaining == 0 ==> step == ReadStep::Return(ReadReturn::Delegate) && after == state
            &&& remaining > 0 && state.io.quota_limit is None ==> after == state && (
            step matches ReadStep::Read(stage) && stage.limit == remaining && !stage.limited
                && stage.reserved == 0 && stage.left is None)
            &&& remaining > 0 && (state.io.quota_limit matches Some(limit)
                && state.user.quota_used >= limit) ==> step == ReadStep::Return(
                ReadReturn::QuotaError,
            ) && after == (IoState {
                io: StatsIo { quota_exceeded: true, ..state.io },
                ..state
            })
            &&& state.io.quota_limit matches Some(limit) ==> remaining > 0 && state.user.quota_used
                < limit ==> after == state && (step matches ReadStep::Reserve(stage) && {
                &&& stage.limit == limit
                &&& stage.left + state.user.quota_used == limit
                &&& stage.remaining == remaining
                &&& stage.rounds == 0 && stage.spins == 0
                &&& stage.desired <= remaining
                &&& state.user.quota_used + stage.desired <= limit
                &&& stage.desired == remaining || state.user.quota_used + stage.desired == limit
            })
        }),
{
}

/// Without a quota, all the bytes are written. With a quota that has something left, as much is tried for
/// as fits both the bytes and what is left; with one that has nothing left, the write is refused, the
/// quota counts as used up, and all that the lease granted goes back to it.
pub proof fn law_write_begins_with_what_fits(state: IoState, len: usize, granted: u64)
    ensures
        ({
            let (after, step) = state.begin_write(len, granted);
            &&& state.io.quota_limit is None ==> after == state && step == WriteStep::Write(
                WriteStage { len, reserved: 0, granted, left: None },
            )
            &&& state.io.quota_limit matches Some(limit) ==> state.user.quota_used >= limit
                ==> refused(state, after, step, granted)
            &&& state.io.quota_limit matches Some(limit) ==> state.user.quota_used < limit
                ==> after == state && if len > 0 {
                step matches WriteStep::Reserve(stage) && stage.rounds == 0 && share_of_the_quota(
                    state,
                    stage,
                    limit,
                    len,
                    granted,
                )
            } else {
                step matches WriteStep::Write(stage) && stage.len == 0 && stage.reserved == 0
                    && stage.granted == granted && (stage.left matches Some(left) && left
                    + state.user.quota_used == limit)
            }
        }),
{
}

/// A write was refused: the quota counts as used up, what the lease granted goes back to it, and nothing
/// else changed.
pub open spec fn refused(state: IoState, after: IoState, step: WriteStep, granted: u64) -> bool {
    &&& after == (IoState { io: StatsIo { quota_exceeded: true, ..state.io }, ..state })
    &&& step matches WriteStep::Return(end) && end.result == WriteReturn::QuotaError && (
    end.lease_refund is Some <==> state.io.has_lease) && (end.lease_refund matches Some(bytes)
        ==> bytes == granted)
}

/// An attempt is for as much as fits both the bytes to write and what is left of the quota.
pub open spec fn share_of_the_quota(
    state: IoState,
    stage: super::write::ReserveStage,
    limit: u64,
    len: usize,
    granted: u64,
) -> bool {
    &&& stage.limit == limit
    &&& stage.left + state.user.quota_used == limit
    &&& stage.len == len
    &&& stage.granted == granted
    &&& stage.spins == 0
    &&& stage.desired <= len
    &&& state.user.quota_used + stage.desired <= limit
    &&& stage.desired == len || state.user.quota_used + stage.desired == limit
}

/// A read of a relay whose quota is used up is refused at once. One without a lease owes nothing and
/// begins; one with a lease first offers what it owes, or looks at a timer that still runs, and begins
/// where there is neither.
pub proof fn law_read_starts_by_settling(state: IoState, remaining: usize)
    ensures
        ({
            let (after, step) = state.poll_read(remaining);
            let free = IoState { io: StatsIo { c2s_rate_debt_bytes: 0, ..state.io }, ..state };
            let settles = AfterSettle::Begin(remaining);
            &&& state.io.quota_exceeded ==> after == state && step == ReadStep::Return(
                ReadReturn::QuotaError,
            )
            &&& !state.io.quota_exceeded && !state.io.has_lease ==> (after, step)
                == free.begin_read(remaining)
            &&& !state.io.quota_exceeded && state.io.has_lease && state.io.c2s_rate_debt_bytes > 0
                ==> after == state && step == ReadStep::Consume(
                ConsumeStage { bytes: state.io.c2s_rate_debt_bytes, after: settles },
            )
            &&& !state.io.quota_exceeded && state.io.has_lease && state.io.c2s_rate_debt_bytes == 0
                ==> if state.io.c2s_wait.sleeping {
                after == state && step == ReadStep::Sleep(
                    SleepStage { start: false, in_debt: false, after: settles },
                )
            } else {
                (after, step) == state.begin_read(remaining)
            }
        }),
{
}

/// A write of a relay whose quota is used up is refused at once, with nothing to give back. One without a
/// lease begins with all its bytes. One with a lease asks the lease for them; where there are none, it
/// looks at a timer that still runs, or begins.
pub proof fn law_write_starts_by_asking(state: IoState, len: usize)
    ensures
        ({
            let (after, step) = state.poll_write(len);
            &&& state.io.quota_exceeded ==> after == state && step == WriteStep::Return(
                WriteEnd { result: WriteReturn::QuotaError, lease_refund: None },
            )
            &&& !state.io.quota_exceeded && !state.io.has_lease ==> (after, step)
                == state.begin_write(len, 0)
            &&& !state.io.quota_exceeded && state.io.has_lease && len > 0 ==> after == state && (
            step matches WriteStep::Consume(stage) && stage.len == len)
            &&& !state.io.quota_exceeded && state.io.has_lease && len == 0
                ==> if state.io.s2c_wait.sleeping {
                after == state && (step matches WriteStep::Sleep(stage) && !stage.start
                    && stage.after == AfterSleep::Proceed(0, 0))
            } else {
                (after, step) == state.begin_write(0, 0)
            }
        }),
{
}

/// A wait runs, from `now` on or from when it began, and remembers every reason.
pub open spec fn waits_from(
    before: RateWait,
    after: RateWait,
    now: Instant,
    blocked_user: bool,
    blocked_cidr: bool,
) -> bool {
    &&& after.sleeping
    &&& after.started_at == (if before.sleeping {
        before.started_at
    } else {
        Some(now)
    })
    &&& after.blocked_user == (before.blocked_user || blocked_user)
    &&& after.blocked_cidr == (before.blocked_cidr || blocked_cidr)
}

/// A wait is over, and forgets what there was to tell of it.
pub open spec fn is_over(before: RateWait, after: RateWait) -> bool {
    &&& !after.sleeping
    &&& after.started_at is None
    &&& before.started_at is Some ==> !after.blocked_user && !after.blocked_cidr
    &&& before.started_at is None ==> after.blocked_user == before.blocked_user
        && after.blocked_cidr == before.blocked_cidr
}

/// A wait that is told names the time since it began and every reason for it; one that never began has
/// nothing to tell.
pub proof fn law_wait_is_told_as_it_was(wait: RateWait, now: Instant, user: bool, cidr: bool)
    ensures
        wait.observed(now) is Some <==> wait.started_at is Some,
        wait.observed(now) matches Some(told) ==> (wait.started_at matches Some(began)
            && is_millis(told.wait_ms, began, now)) && told.blocked_user == wait.blocked_user
            && told.blocked_cidr == wait.blocked_cidr,
        waits_from(wait, wait.armed(now, user, cidr), now, user, cidr),
        is_over(wait, wait.woken()),
        wait.told().started_at is None,
        wait.told().sleeping == wait.sleeping,
        wait.started_at is None ==> wait.told() == wait,
        wait.started_at is Some ==> !wait.told().blocked_user && !wait.told().blocked_cidr,
{
}

/// What the lease grants is owed no longer, and the rest is offered again, until nothing is owed. Where it
/// grants nothing, the relay waits.
pub proof fn law_grant_pays_the_debt(
    state: IoState,
    stage: ConsumeStage,
    grant: LeaseGrant,
    now: Instant,
)
    requires
        state.io.has_lease,
    ensures
        ({
            let (after, step) = state.consumed(stage, grant, now);
            let paid = IoState {
                io: StatsIo {
                    c2s_rate_debt_bytes: (state.io.c2s_rate_debt_bytes - grant.granted) as u64,
                    ..state.io
                },
                ..state
            };
            let free = IoState { io: StatsIo { c2s_rate_debt_bytes: 0, ..state.io }, ..state };
            &&& 0 < grant.granted < state.io.c2s_rate_debt_bytes ==> after == paid && step
                == ReadStep::Consume(
                ConsumeStage {
                    bytes: (state.io.c2s_rate_debt_bytes - grant.granted) as u64,
                    after: stage.after,
                },
            )
            &&& grant.granted > 0 && grant.granted >= state.io.c2s_rate_debt_bytes
                && state.io.c2s_wait.sleeping ==> after == free && step == ReadStep::Sleep(
                SleepStage { start: false, in_debt: false, after: stage.after },
            )
            &&& grant.granted > 0 && grant.granted >= state.io.c2s_rate_debt_bytes
                && !state.io.c2s_wait.sleeping ==> match stage.after {
                AfterSettle::Begin(remaining) => (after, step) == free.begin_read(remaining),
                AfterSettle::End => after == free && step == ReadStep::Return(ReadReturn::Done),
            }
            &&& grant.granted == 0 ==> {
                &&& after == (IoState {
                    io: StatsIo { c2s_wait: after.io.c2s_wait, ..state.io },
                    ..state
                })
                &&& waits_from(
                    state.io.c2s_wait,
                    after.io.c2s_wait,
                    now,
                    grant.blocked_user,
                    grant.blocked_cidr,
                )
                &&& step == ReadStep::Sleep(
                    SleepStage {
                        start: !state.io.c2s_wait.sleeping,
                        in_debt: true,
                        after: stage.after,
                    },
                )
            }
        }),
{
}

/// While the timer of the rate debt runs, a read that was to begin has to wait, and one that was to end
/// ends. Once it has run out, what is owed is offered again, or the read goes on.
pub proof fn law_debt_is_slept_off(state: IoState, stage: SleepStage, elapsed: bool)
    requires
        state.io.has_lease,
    ensures
        ({
            let (after, step) = state.slept(stage, elapsed);
            let woken = IoState {
                io: StatsIo { c2s_wait: state.io.c2s_wait.woken(), ..state.io },
                ..state
            };
            &&& !elapsed ==> after == state && step == ReadStep::Return(
                if stage.after is End {
                    ReadReturn::Done
                } else {
                    ReadReturn::Pending
                },
            )
            &&& elapsed && stage.in_debt && state.io.c2s_rate_debt_bytes > 0 ==> after == woken
                && step == ReadStep::Consume(
                ConsumeStage { bytes: state.io.c2s_rate_debt_bytes, after: stage.after },
            )
            &&& elapsed && !(stage.in_debt && state.io.c2s_rate_debt_bytes > 0) ==> match stage.after {
                AfterSettle::Begin(remaining) => (after, step) == woken.begin_read(remaining),
                AfterSettle::End => after == woken && step == ReadStep::Return(ReadReturn::Done),
            }
        }),
{
}

/// An attempt on the quota that nothing is in the way of takes exactly the share, if it fits under the
/// limit, and reads no more than it; otherwise the read is refused. One that something is in the way of is
/// counted, and is made again as often as the tuning says, in as many rows; then the relay waits.
pub proof fn law_read_attempt_takes_the_share(
    state: IoState,
    stage: ReserveStage,
    contended: bool,
    now: Instant,
)
    requires
        stage.desired <= usize::MAX,
    ensures
        ({
            let (after, step) = state.tried(stage, contended, now);
            let tuning = state.io.quota_tuning;
            let fits = state.user.quota_used + stage.desired <= stage.limit;
            &&& !contended && fits ==> {
                &&& after == (IoState {
                    user: UserStats { quota_used: after.user.quota_used, ..state.user },
                    ..state
                })
                &&& after.user.quota_used == state.user.quota_used + stage.desired
                &&& step matches ReadStep::Read(read) && read.limit == stage.desired
                    && read.reserved == stage.desired && read.left == Some(stage.left) && (
                read.limited <==> stage.desired < stage.remaining)
            }
            &&& !contended && !fits ==> step == ReadStep::Return(ReadReturn::QuotaError) && after
                == (IoState { io: StatsIo { quota_exceeded: true, ..state.io }, ..state })
            &&& contended ==> after.user == state.user && went_up(
                state.events.quota_contention_total,
                after.events.quota_contention_total,
                1,
            )
            &&& contended && stage.spins + 1 < tuning.spin_retries ==> {
                &&& attempt_is_counted(state, after)
                &&& step matches ReadStep::Reserve(next) && next.spins == stage.spins + 1 && next
                    == (ReserveStage { spins: next.spins, ..stage })
            }
            &&& contended && stage.spins + 1 >= tuning.spin_retries && stage.rounds + 1
                < tuning.max_rounds ==> {
                &&& attempt_is_counted(state, after)
                &&& step matches ReadStep::Reserve(next) && next.spins == 0 && next.rounds
                    == stage.rounds + 1 && next == (ReserveStage {
                    spins: next.spins,
                    rounds: next.rounds,
                    ..stage
                })
            }
            &&& contended && stage.spins + 1 >= tuning.spin_retries && stage.rounds + 1
                >= tuning.max_rounds ==> {
                &&& attempts_are_given_up(state, after, now)
                &&& step matches ReadStep::QuotaSleep(sleep) && sleep.start
                    == !state.io.quota_wait.sleeping && sleep.reserve == (ReserveStage {
                    rounds: 0,
                    spins: 0,
                    ..stage
                })
            }
        }),
{
}

/// An attempt that met contention is counted, and nothing else happens.
pub open spec fn attempt_is_counted(state: IoState, after: IoState) -> bool {
    &&& after == (IoState {
        events: EventCounters {
            quota_contention_total: after.events.quota_contention_total,
            ..state.events
        },
        ..state
    })
    &&& went_up(
        state.events.quota_contention_total,
        after.events.quota_contention_total,
        1,
    )
}

/// An attempt that met contention is counted, and so is that the attempts are given up; a wait begins or
/// goes on, and nothing else happens.
pub open spec fn attempts_are_given_up(state: IoState, after: IoState, now: Instant) -> bool {
    &&& after == (IoState {
        io: StatsIo { quota_wait: after.io.quota_wait, ..state.io },
        events: EventCounters {
            quota_contention_total: after.events.quota_contention_total,
            quota_contention_timeout_total: after.events.quota_contention_timeout_total,
            ..state.events
        },
        ..state
    })
    &&& went_up(
        state.events.quota_contention_timeout_total,
        after.events.quota_contention_timeout_total,
        1,
    )
    &&& waits_from(state.io.quota_wait, after.io.quota_wait, now, false, false)
}

/// While the timer of the quota runs, a read has to wait. Once it has run out, the attempts begin anew,
/// for the same share.
pub proof fn law_read_waits_for_the_quota(state: IoState, stage: QuotaSleepStage, elapsed: bool)
    ensures
        ({
            let (after, step) = state.quota_slept(stage, elapsed);
            &&& !elapsed ==> after == state && step == ReadStep::Return(ReadReturn::Pending)
            &&& elapsed ==> {
                &&& step == ReadStep::Reserve(stage.reserve)
                &&& after == (IoState {
                    io: StatsIo { quota_wait: after.io.quota_wait, ..state.io },
                    ..state
                })
                &&& is_over(state.io.quota_wait, after.io.quota_wait)
            }
        }),
{
}

/// Of the bytes to write, as many go on as the lease granted, unless it granted more; a timer that still
/// runs is looked at before. Where the lease grants nothing, the relay waits, to ask again for all of
/// them.
pub proof fn law_write_goes_on_with_the_grant(
    state: IoState,
    stage: super::write::ConsumeStage,
    grant: LeaseGrant,
    now: Instant,
    len: usize,
)
    requires
        len <= stage.len,
        len <= grant.granted,
        len == stage.len || len == grant.granted,
    ensures
        ({
            let (after, step) = state.granted(stage, grant, now);
            &&& grant.granted > 0 && state.io.s2c_wait.sleeping ==> after == state && (
            step matches WriteStep::Sleep(sleep) && !sleep.start && sleep.after
                == AfterSleep::Proceed(len, grant.granted))
            &&& grant.granted > 0 && !state.io.s2c_wait.sleeping ==> (after, step)
                == state.begin_write(len, grant.granted)
            &&& grant.granted == 0 ==> {
                &&& after == (IoState {
                    io: StatsIo { s2c_wait: after.io.s2c_wait, ..state.io },
                    ..state
                })
                &&& waits_from(
                    state.io.s2c_wait,
                    after.io.s2c_wait,
                    now,
                    grant.blocked_user,
                    grant.blocked_cidr,
                )
                &&& step matches WriteStep::Sleep(sleep) && sleep.start
                    == !state.io.s2c_wait.sleeping && sleep.after == AfterSleep::Retry(stage)
            }
        }),
{
}

/// A write that the lease has granted goes on whether or not the timer has run out. One that it has not
/// asks again once it has, and has to wait until then.
pub proof fn law_write_sleeps_until_it_may_ask(
    state: IoState,
    stage: super::write::SleepStage,
    elapsed: bool,
)
    ensures
        ({
            let (after, step) = state.write_slept(stage, elapsed);
            let woken = IoState {
                io: StatsIo { s2c_wait: state.io.s2c_wait.woken(), ..state.io },
                ..state
            };
            let polled = if elapsed {
                woken
            } else {
                state
            };
            &&& stage.after matches AfterSleep::Proceed(len, granted) ==> (after, step)
                == polled.begin_write(len, granted)
            &&& stage.after matches AfterSleep::Retry(consume) ==> after == polled && step == (
            if elapsed {
                WriteStep::Consume(consume)
            } else {
                WriteStep::Return(WriteEnd { result: WriteReturn::Pending, lease_refund: None })
            })
        }),
{
}

/// An attempt on the quota that nothing is in the way of takes exactly the share, if it fits under the
/// limit, and writes exactly that many bytes. One in vain, or one that something is in the way of, is made
/// again as often as the tuning says, and then in another row, for what is left by then; after the last
/// row the relay waits, and all that the lease granted goes back to it.
pub proof fn law_write_attempt_takes_the_share(
    state: IoState,
    stage: super::write::ReserveStage,
    contended: bool,
    now: Instant,
)
    requires
        stage.desired <= usize::MAX,
    ensures
        ({
            let (after, step) = state.write_tried(stage, contended, now);
            let tuning = state.io.quota_tuning;
            let fits = state.user.quota_used + stage.desired <= stage.limit;
            let again = contended && stage.spins + 1 < tuning.spin_retries;
            let in_vain = contended && !again || !contended && !fits;
            let counted = IoState { events: after.events, ..state };
            &&& !contended && fits ==> {
                &&& after == (IoState {
                    user: UserStats { quota_used: after.user.quota_used, ..state.user },
                    ..state
                })
                &&& after.user.quota_used == state.user.quota_used + stage.desired
                &&& step matches WriteStep::Write(write) && write.len == stage.desired
                    && write.reserved == stage.desired && write.granted == stage.granted
                    && write.left == Some(stage.left)
            }
            &&& again ==> {
                &&& attempt_is_counted(state, after)
                &&& step matches WriteStep::Reserve(next) && next.spins == stage.spins + 1 && next
                    == (super::write::ReserveStage { spins: next.spins, ..stage })
            }
            &&& went_up(
                state.events.quota_contention_total,
                after.events.quota_contention_total,
                if contended {
                    1
                } else {
                    0
                },
            )
            &&& in_vain && stage.rounds + 1 < tuning.max_rounds && state.user.quota_used
                >= stage.limit ==> refused(counted, after, step, stage.granted)
            &&& in_vain && stage.rounds + 1 < tuning.max_rounds && state.user.quota_used
                < stage.limit ==> after == counted && (step matches WriteStep::Reserve(next)
                && next.rounds == stage.rounds + 1 && share_of_the_quota(
                state,
                next,
                stage.limit,
                stage.len,
                stage.granted,
            ))
            &&& in_vain && stage.rounds + 1 < tuning.max_rounds ==> after.events == (EventCounters {
                quota_contention_total: after.events.quota_contention_total,
                ..state.events
            })
            &&& in_vain && stage.rounds + 1 >= tuning.max_rounds ==> {
                &&& attempts_are_given_up(state, after, now)
                &&& step matches WriteStep::QuotaSleep(sleep) && sleep.start
                    == !state.io.quota_wait.sleeping && (sleep.lease_refund is Some
                    <==> state.io.has_lease) && (sleep.lease_refund matches Some(bytes) ==> bytes
                    == stage.granted)
            }
        }),
{
}

/// A write that waits for the quota ends as nothing yet, whether or not the timer has run out.
pub proof fn law_write_waits_for_the_quota(state: IoState, elapsed: bool)
    ensures
        ({
            let (after, step) = state.write_quota_slept(elapsed);
            &&& step == WriteStep::Return(
                WriteEnd { result: WriteReturn::Pending, lease_refund: None },
            )
            &&& !elapsed ==> after == state
            &&& elapsed ==> after == (IoState {
                io: StatsIo { quota_wait: after.io.quota_wait, ..state.io },
                ..state
            }) && is_over(state.io.quota_wait, after.io.quota_wait)
        }),
{
}

/// A new relay takes over the counts that it shares, counts as active, owes nothing and waits for nothing.
pub proof fn law_new_relay_starts_clean(
    counters: SharedCounters,
    user_stats: UserStatsHandle,
    has_lease: bool,
    quota_limit: Option<u64>,
    quota_exceeded: bool,
    quota_tuning: QuotaTuning,
    epoch: Instant,
    now: Instant,
)
    ensures
        ({
            let io = fresh_io(
                counters,
                user_stats,
                has_lease,
                quota_limit,
                quota_exceeded,
                quota_tuning,
                epoch,
                now,
            );
            &&& io.counters.c2s_bytes == counters.c2s_bytes && io.counters.c2s_ops
                == counters.c2s_ops
            &&& io.counters.s2c_bytes == counters.s2c_bytes && io.counters.s2c_ops
                == counters.s2c_ops
            &&& is_millis(io.counters.last_activity_ms, epoch, now)
            &&& io.user_stats == user_stats && io.has_lease == has_lease && io.epoch == epoch
            &&& io.quota_limit == quota_limit && io.quota_exceeded == quota_exceeded
                && io.quota_tuning == quota_tuning
            &&& io.c2s_rate_debt_bytes == 0 && io.quota_bytes_since_check == 0
            &&& forall|wait: RateWait|
                wait == io.c2s_wait || wait == io.s2c_wait || wait == io.quota_wait ==> !(
                #[trigger] wait.sleeping) && wait.started_at is None && !wait.blocked_user
                    && !wait.blocked_cidr
        }),
{
}

/// A wait is told when its timer has run out, or with the bytes that a lease let through, and is over with
/// that; one that is not told goes on as it was.
pub proof fn law_told_wait_is_over(
    state: IoState,
    wait: RateWait,
    elapsed: bool,
    stage: WriteStage,
    took: WriteOutcome,
    check: QuotaCheck,
    now: Instant,
)
    ensures
        elapsed ==> is_over(wait, wait.woken_if(elapsed)),
        !elapsed ==> wait.woken_if(elapsed) == wait,
        wait.observed_if(elapsed, now) is Some <==> elapsed && wait.started_at is Some,
        wait.observed_if(elapsed, now) matches Some(told) ==> is_millis(
            told.wait_ms,
            wait.started_at->0,
            now,
        ) && told.blocked_user == wait.blocked_user && told.blocked_cidr == wait.blocked_cidr,
        ({
            let after = state.was_written(stage, took, check, now).0;
            let told = state.told_by_write(took, now);
            &&& told is Some <==> state.io.s2c_wait.started_at is Some
                && after.io.s2c_wait.started_at is None
            &&& told is Some <==> state.io.has_lease && state.io.s2c_wait.started_at is Some && (
            took matches WriteOutcome::Ready(n) && n > 0)
            &&& told matches Some(seen) ==> is_millis(
                seen.wait_ms,
                state.io.s2c_wait.started_at->0,
                now,
            ) && seen.blocked_user == state.io.s2c_wait.blocked_user && seen.blocked_cidr
                == state.io.s2c_wait.blocked_cidr
        }),
{
}

/// Whatever a relay does, it changes its own state, the counters of its user and the counters of events,
/// and nothing of anyone else: no other user, no name, no handle and no other counter.
pub proof fn law_relay_touches_its_user_alone(
    io: StatsIo,
    stats: Stats,
    io_after: StatsIo,
    stats_after: Stats,
    after: IoState,
    slot: usize,
    name: Seq<char>,
)
    requires
        ready(io, stats),
        became(io, stats, io_after, stats_after, after),
    ensures
        io_after == after.io,
        io_after.user_stats == io.user_stats,
        io_after.quota_tuning == io.quota_tuning,
        stats_after.events == after.events,
        stats_after.users.slots()[io.user_stats.slot] == after.user,
        slot != io.user_stats.slot ==> (stats_after.users.slots().contains_key(slot)
            <==> stats.users.slots().contains_key(slot)) && (stats.users.slots().contains_key(slot)
            ==> stats_after.users.slots()[slot] == stats.users.slots()[slot]),
        stats_after.users.names() == stats.users.names(),
        stats_after.users.holders(slot) == stats.users.holders(slot),
        stats_after.users.issued(io.user_stats),
        stats_after.policy == stats.policy,
        stats_after.connects_all == stats.connects_all,
        stats_after.me == stats.me,
        state_of(io, stats).io == io,
        state_of(io, stats).events == stats.events,
        state_of(io, stats).user == stats.users.slots()[io.user_stats.slot],
        state_of(io, stats).user_enabled == stats.policy.user_enabled,
{
}

/// The bytes of a read and of a write are found where the relay and its user are looked up afterwards.
pub proof fn law_bytes_are_found_under_the_user(
    io: StatsIo,
    stats: Stats,
    io_after: StatsIo,
    stats_after: Stats,
    read: ReadStage,
    write: WriteStage,
    n: usize,
    check: QuotaCheck,
    now: Instant,
)
    requires
        ready(io, stats),
        n > 0,
    ensures
        became(
            io,
            stats,
            io_after,
            stats_after,
            state_of(io, stats).was_read(read, ReadOutcome::Ready(n), check, now).0,
        ) ==> went_up(io.counters.c2s_bytes, io_after.counters.c2s_bytes, n as int) && went_up(
            io.counters.c2s_ops,
            io_after.counters.c2s_ops,
            1,
        ) && io_after.counters.s2c_bytes == io.counters.s2c_bytes && went_up(
            stats.handle_stats(io.user_stats).octets_from,
            stats_after.handle_stats(io.user_stats).octets_from,
            if stats.policy.user_enabled {
                n as int
            } else {
                0
            },
        ),
        became(
            io,
            stats,
            io_after,
            stats_after,
            state_of(io, stats).was_written(write, WriteOutcome::Ready(n), check, now).0,
        ) ==> went_up(io.counters.s2c_bytes, io_after.counters.s2c_bytes, n as int) && went_up(
            io.counters.s2c_ops,
            io_after.counters.s2c_ops,
            1,
        ) && io_after.counters.c2s_bytes == io.counters.c2s_bytes && went_up(
            stats.handle_stats(io.user_stats).octets_to,
            stats_after.handle_stats(io.user_stats).octets_to,
            if stats.policy.user_enabled {
                n as int
            } else {
                0
            },
        ),
{
    law_read_bytes_are_counted(state_of(io, stats), read, n, check, now);
    law_written_bytes_are_counted(state_of(io, stats), write, n, check, now);
}

} // verus!
